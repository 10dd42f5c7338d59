//! Where rendered templates go: output paths and the order of renders.

use vstd::prelude::*;
use vstd::arithmetic::div_mod::lemma_fundamental_div_mod_converse;
use crate::helper::{snake_case_of, snake_helper};
use crate::model::Table;
use crate::text::{replace_all, replace_text};

verus! {

/// The output path of a per-table template named `file_name` for a table
/// whose snake-case name is `snake_table`: the token `${table_name}` in the
/// name stands for the table.
pub open spec fn table_output_path(dir: Seq<char>, file_name: Seq<char>, snake_table: Seq<char>) -> Seq<
    char,
> {
    dir + "/"@ + replace_all(file_name, "${table_name}"@, snake_table) + ".rs"@
}

/// The output path of a whole-schema template named `file_name`.
pub open spec fn single_output_path_of(dir: Seq<char>, file_name: Seq<char>) -> Seq<char> {
    dir + "/"@ + file_name + ".rs"@
}

/// The output path of a per-table template for the table whose snake-case
/// name is given.
pub fn path_for_table(output_dir: &str, file_name: &str, snake_table_name: &str) -> (r: String)
    ensures
        r@ == table_output_path(output_dir@, file_name@, snake_table_name@),
{
    proof {
        reveal_strlit("${table_name}");
    }
    let name = replace_text(file_name, "${table_name}", snake_table_name);
    String::from_str(output_dir).concat("/").concat(name.as_str()).concat(".rs")
}

/// The output path of a per-table template for the table `table_name`.
pub fn multi_output_path(output_dir: &str, file_name: &str, table_name: &String) -> (r: String)
    ensures
        r@ == table_output_path(output_dir@, file_name@, snake_case_of(table_name@)),
{
    let snake = snake_helper(table_name.clone());
    path_for_table(output_dir, file_name, snake.as_str())
}

/// The output path of a whole-schema template.
pub fn single_output_path(output_dir: &str, file_name: &str) -> (r: String)
    ensures
        r@ == single_output_path_of(output_dir@, file_name@),
{
    String::from_str(output_dir).concat("/").concat(file_name).concat(".rs")
}

/// One render: a template of one of the two groups, the context it is bound
/// to, and the file it is written to.
pub enum RenderJob {
    /// Per-table template `template` bound to table `table`.
    PerTable { template: usize, table: usize, path: String },
    /// Whole-schema template `template` bound to the list of all tables.
    AllTables { template: usize, path: String },
}

/// `j` renders per-table template `t` for table `k` into `path`.
pub open spec fn is_table_job(j: RenderJob, t: int, k: int, path: Seq<char>) -> bool {
    match j {
        RenderJob::PerTable { template, table, path: p } => template == t && table == k && p@ == path,
        RenderJob::AllTables { .. } => false,
    }
}

/// `j` renders whole-schema template `s` into `path`.
pub open spec fn is_whole_job(j: RenderJob, s: int, path: Seq<char>) -> bool {
    match j {
        RenderJob::AllTables { template, path: p } => template == s && p@ == path,
        RenderJob::PerTable { .. } => false,
    }
}

/// `jobs` renders, in order, every per-table template (outer) for every table
/// (inner), then every whole-schema template once.
pub open spec fn is_plan(
    jobs: Seq<RenderJob>,
    tables: Seq<Table>,
    multi: Seq<String>,
    single: Seq<String>,
    dir: Seq<char>,
) -> bool {
    let n = tables.len() as int;
    let m = multi.len() as int;
    &&& jobs.len() == m * n + single.len()
    &&& forall|i: int|
        0 <= i < m * n ==> is_table_job(
            #[trigger] jobs[i],
            i / (n as int),
            i % (n as int),
            table_output_path(dir, multi[i / (n as int)]@, snake_case_of(tables[i % (n as int)].table_name@)),
        )
    &&& forall|s: int|
        0 <= s < single.len() ==> is_whole_job(
            #[trigger] jobs[m * n + s],
            s,
            single_output_path_of(dir, single[s]@),
        )
}

/// The renders of one generation run over `tables`, with the per-table
/// templates named `multi` and the whole-schema templates named `single`.
pub fn plan_renders(
    tables: &Vec<Table>,
    multi: &Vec<String>,
    single: &Vec<String>,
    output_dir: &str,
) -> (r: Vec<RenderJob>)
    requires
        multi@.len() * tables@.len() + single@.len() <= usize::MAX,
    ensures
        is_plan(r@, tables@, multi@, single@, output_dir@),
        r@.len() == multi@.len() * tables@.len() + single@.len(),
{
    let n = tables.len();
    let m = multi.len();
    let mut jobs: Vec<RenderJob> = Vec::new();
    let mut t: usize = 0;
    while t < m
        invariant
            n == tables@.len(),
            m == multi@.len(),
            m * n + single@.len() <= usize::MAX,
            t <= m,
            jobs@.len() == t * n,
            forall|i: int|
                0 <= i < t * n ==> is_table_job(
                    #[trigger] jobs@[i],
                    i / (n as int),
                    i % (n as int),
                    table_output_path(output_dir@, multi@[i / (n as int)]@, snake_case_of(tables@[i % (n as int)].table_name@)),
                ),
        decreases m - t,
    {
        assert((t + 1) * n <= m * n) by (nonlinear_arith)
            requires
                t < m,
        ;
        assert((t + 1) * n == t * n + n) by (nonlinear_arith);
        let mut k: usize = 0;
        while k < n
            invariant
                n == tables@.len(),
                m == multi@.len(),
                t < m,
                (t + 1) * n <= m * n,
                (t + 1) * n == t * n + n,
                m * n + single@.len() <= usize::MAX,
                k <= n,
                jobs@.len() == t * n + k,
                forall|i: int|
                    0 <= i < t * n + k ==> is_table_job(
                        #[trigger] jobs@[i],
                        i / (n as int),
                        i % (n as int),
                        table_output_path(output_dir@, multi@[i / (n as int)]@, snake_case_of(tables@[i % (n as int)].table_name@)),
                    ),
            decreases n - k,
        {
            let path = multi_output_path(output_dir, multi[t].as_str(), &tables[k].table_name);
            proof {
                lemma_fundamental_div_mod_converse(t * n + k, n as int, t as int, k as int);
            }
            jobs.push(RenderJob::PerTable { template: t, table: k, path });
            k = k + 1;
        }
        t = t + 1;
    }
    let mut s: usize = 0;
    while s < single.len()
        invariant
            n == tables@.len(),
            m == multi@.len(),
            m * n + single@.len() <= usize::MAX,
            s <= single@.len(),
            jobs@.len() == m * n + s,
            forall|i: int|
                0 <= i < m * n ==> is_table_job(
                    #[trigger] jobs@[i],
                    i / (n as int),
                    i % (n as int),
                    table_output_path(output_dir@, multi@[i / (n as int)]@, snake_case_of(tables@[i % (n as int)].table_name@)),
                ),
            forall|x: int|
                0 <= x < s ==> is_whole_job(
                    #[trigger] jobs@[m * n + x],
                    x,
                    single_output_path_of(output_dir@, single@[x]@),
                ),
        decreases single@.len() - s,
    {
        let path = single_output_path(output_dir, single[s].as_str());
        jobs.push(RenderJob::AllTables { template: s, path });
        s = s + 1;
    }
    jobs
}

/// Every per-table template is rendered once for every table, at the place
/// fixed by the template and the table, and every whole-schema template once
/// after them, however many tables there are (none included).
pub proof fn lemma_plan_covers_pairs(
    jobs: Seq<RenderJob>,
    tables: Seq<Table>,
    multi: Seq<String>,
    single: Seq<String>,
    dir: Seq<char>,
)
    requires
        is_plan(jobs, tables, multi, single, dir),
    ensures
        jobs.len() == multi.len() * tables.len() + single.len(),
        forall|t: int, k: int|
            0 <= t < multi.len() && 0 <= k < tables.len() ==> is_table_job(
                #[trigger] jobs[t * tables.len() + k],
                t,
                k,
                table_output_path(dir, multi[t]@, snake_case_of(tables[k].table_name@)),
            ),
        forall|s: int|
            0 <= s < single.len() ==> is_whole_job(
                #[trigger] jobs[multi.len() * tables.len() + s],
                s,
                single_output_path_of(dir, single[s]@),
            ),
{
    let n = tables.len() as int;
    let m = multi.len() as int;
    assert forall|t: int, k: int| 0 <= t < m && 0 <= k < n implies is_table_job(
        #[trigger] jobs[t * tables.len() + k],
        t,
        k,
        table_output_path(dir, multi[t]@, snake_case_of(tables[k].table_name@)),
    ) by {
        let i = t * n + k;
        assert(i < m * n) by (nonlinear_arith)
            requires
                0 <= t < m,
                0 <= k < n,
                i == t * n + k,
        ;
        lemma_fundamental_div_mod_converse(i, n, t, k);
        assert(0 <= i < m * n);
    }
}

/// The two jobs render the same template into the same path, bound to the
/// same context.
pub open spec fn same_job(a: RenderJob, b: RenderJob) -> bool {
    match (a, b) {
        (
            RenderJob::PerTable { template: t1, table: k1, path: p1 },
            RenderJob::PerTable { template: t2, table: k2, path: p2 },
        ) => t1 == t2 && k1 == k2 && p1@ == p2@,
        (
            RenderJob::AllTables { template: t1, path: p1 },
            RenderJob::AllTables { template: t2, path: p2 },
        ) => t1 == t2 && p1@ == p2@,
        _ => false,
    }
}

/// Planning is deterministic: two plans for the same tables, templates and
/// output directory render the same templates into the same files in the same
/// order.
pub proof fn lemma_plan_deterministic(
    a: Seq<RenderJob>,
    b: Seq<RenderJob>,
    tables: Seq<Table>,
    multi: Seq<String>,
    single: Seq<String>,
    dir: Seq<char>,
)
    requires
        is_plan(a, tables, multi, single, dir),
        is_plan(b, tables, multi, single, dir),
    ensures
        a.len() == b.len(),
        forall|i: int| 0 <= i < a.len() ==> same_job(#[trigger] a[i], b[i]),
{
    let mn = multi.len() * tables.len();
    assert forall|i: int| 0 <= i < a.len() implies same_job(#[trigger] a[i], b[i]) by {
        if i >= mn {
            let s = i - mn;
            assert(a[mn + s] == a[i]);
            assert(b[mn + s] == b[i]);
        }
    }
}

} // verus!
