//! Rows and columns of the per-resource call analysis: the distinct
//! call names of each phase, joined for tabular output.

use vstd::prelude::*;
use crate::arguments::views_of_strings;
use crate::enrichment::SdkMethodCall;
use crate::policy::{dedup_strings, dedup_strings_exec};
use crate::text::chars_to_string;

verus! {

/// Where a function declaration stands.
#[derive(Debug, Clone, PartialEq, Eq)]
pub struct FuncDecl {
    /// The file of the declaration.
    pub filename: String,
    /// Byte offset in the file.
    pub offset: i32,
    /// Line in the file.
    pub line: i32,
    /// Column in the line.
    pub column: i32,
}

/// The metadata of one extracted resource.
#[derive(Debug, Clone)]
pub struct MetadataStruct {
    /// The service directory's name.
    pub service_dir_name: String,
    /// The provider file's path.
    pub file_path: String,
    /// The infrastructure resource's name.
    pub terraform_resource_name: String,
    /// The SDK resource's name.
    pub sdk_resource_name: String,
    /// The create function's name.
    pub create_function_name: String,
    /// The resource's decorator annotations.
    pub resource_decorators: Vec<String>,
    /// The row of the first call.
    pub first_call_row: i32,
    /// The column of the first call.
    pub first_call_col: i32,
    /// The row of the last call.
    pub last_call_row: i32,
    /// The column of the last call.
    pub last_call_col: i32,
    /// Declarations before the create function.
    pub before_func_decls: Vec<FuncDecl>,
    /// Declarations between the calls of the create function.
    pub intermediate_func_decls: Vec<FuncDecl>,
    /// Declarations after the create function.
    pub after_func_decls: Vec<FuncDecl>,
    /// Every declaration of the file.
    pub all_func_decls: Vec<FuncDecl>,
}

/// One row of the analysis table.
#[derive(Debug, Clone)]
pub struct ResourceAnalysisRow {
    /// The service.
    pub service_name: String,
    /// The infrastructure resource.
    pub terraform_resource_name: String,
    /// The SDK resource.
    pub aws_sdk_resource_name: String,
    /// How many distinct calls stand before the create function.
    pub num_before_sdk_calls: i32,
    /// Those calls, joined.
    pub before_sdk_calls: String,
    /// How many distinct calls stand between.
    pub num_intermediate_sdk_calls: i32,
    /// Those calls, joined.
    pub intermediate_sdk_calls: String,
    /// How many distinct calls stand after.
    pub num_after_sdk_calls: i32,
    /// Those calls, joined.
    pub after_sdk_calls: String,
    /// How many distinct calls the create stack makes.
    pub num_create_function_stack_calls: i32,
    /// Those calls, joined.
    pub create_function_stack_calls: String,
    /// How many distinct calls the create function makes itself.
    pub num_create_function_only_calls: i32,
    /// Those calls, joined.
    pub create_function_only_calls: String,
    /// The row of the first call.
    pub first_call_row: i32,
    /// The column of the first call.
    pub first_call_col: i32,
    /// The row of the last call.
    pub last_call_row: i32,
    /// The column of the last call.
    pub last_call_col: i32,
    /// The provider file's path.
    pub file_path: String,
}

/// The columns of the analysis table, one vector per column.
#[derive(Debug, Clone)]
pub struct ResourceAnalysisColumns {
    pub service_names: Vec<String>,
    pub terraform_resource_names: Vec<String>,
    pub aws_sdk_resource_names: Vec<String>,
    pub num_before_sdk_calls: Vec<i32>,
    pub before_sdk_calls: Vec<String>,
    pub num_intermediate_sdk_calls: Vec<i32>,
    pub intermediate_sdk_calls: Vec<String>,
    pub num_after_sdk_calls: Vec<i32>,
    pub after_sdk_calls: Vec<String>,
    pub num_create_function_stack_calls: Vec<i32>,
    pub create_function_stack_calls: Vec<String>,
    pub num_create_function_only_calls: Vec<i32>,
    pub create_function_only_calls: Vec<String>,
    pub first_call_row: Vec<i32>,
    pub first_call_col: Vec<i32>,
    pub last_call_row: Vec<i32>,
    pub last_call_col: Vec<i32>,
    pub file_paths: Vec<String>,
}

impl ResourceAnalysisColumns {
    /// All columns hold the same number of rows.
    pub open spec fn consistent(&self) -> bool {
        &&& self.service_names@.len() == self.terraform_resource_names@.len()
        &&& self.service_names@.len() == self.aws_sdk_resource_names@.len()
        &&& self.service_names@.len() == self.num_before_sdk_calls@.len()
        &&& self.service_names@.len() == self.before_sdk_calls@.len()
        &&& self.service_names@.len() == self.num_intermediate_sdk_calls@.len()
        &&& self.service_names@.len() == self.intermediate_sdk_calls@.len()
        &&& self.service_names@.len() == self.num_after_sdk_calls@.len()
        &&& self.service_names@.len() == self.after_sdk_calls@.len()
        &&& self.service_names@.len() == self.num_create_function_stack_calls@.len()
        &&& self.service_names@.len() == self.create_function_stack_calls@.len()
        &&& self.service_names@.len() == self.num_create_function_only_calls@.len()
        &&& self.service_names@.len() == self.create_function_only_calls@.len()
        &&& self.service_names@.len() == self.first_call_row@.len()
        &&& self.service_names@.len() == self.first_call_col@.len()
        &&& self.service_names@.len() == self.last_call_row@.len()
        &&& self.service_names@.len() == self.last_call_col@.len()
        &&& self.service_names@.len() == self.file_paths@.len()
    }

    /// Empty columns.
    pub fn new() -> (r: ResourceAnalysisColumns)
        ensures
            r.consistent(),
            r.service_names@.len() == 0,
    {
        ResourceAnalysisColumns {
            service_names: Vec::new(),
            terraform_resource_names: Vec::new(),
            aws_sdk_resource_names: Vec::new(),
            num_before_sdk_calls: Vec::new(),
            before_sdk_calls: Vec::new(),
            num_intermediate_sdk_calls: Vec::new(),
            intermediate_sdk_calls: Vec::new(),
            num_after_sdk_calls: Vec::new(),
            after_sdk_calls: Vec::new(),
            num_create_function_stack_calls: Vec::new(),
            create_function_stack_calls: Vec::new(),
            num_create_function_only_calls: Vec::new(),
            create_function_only_calls: Vec::new(),
            first_call_row: Vec::new(),
            first_call_col: Vec::new(),
            last_call_row: Vec::new(),
            last_call_col: Vec::new(),
            file_paths: Vec::new(),
        }
    }

    /// Appends one row to every column.
    pub fn append(&mut self, row: ResourceAnalysisRow)
        requires
            old(self).consistent(),
        ensures
            final(self).consistent(),
            final(self).service_names@ == old(self).service_names@.push(row.service_name),
            final(self).terraform_resource_names@ == old(self).terraform_resource_names@.push(
                row.terraform_resource_name,
            ),
            final(self).aws_sdk_resource_names@ == old(self).aws_sdk_resource_names@.push(
                row.aws_sdk_resource_name,
            ),
            final(self).num_before_sdk_calls@ == old(self).num_before_sdk_calls@.push(
                row.num_before_sdk_calls,
            ),
            final(self).before_sdk_calls@ == old(self).before_sdk_calls@.push(
                row.before_sdk_calls,
            ),
            final(self).num_intermediate_sdk_calls@ == old(
                self,
            ).num_intermediate_sdk_calls@.push(row.num_intermediate_sdk_calls),
            final(self).intermediate_sdk_calls@ == old(self).intermediate_sdk_calls@.push(
                row.intermediate_sdk_calls,
            ),
            final(self).num_after_sdk_calls@ == old(self).num_after_sdk_calls@.push(
                row.num_after_sdk_calls,
            ),
            final(self).after_sdk_calls@ == old(self).after_sdk_calls@.push(row.after_sdk_calls),
            final(self).num_create_function_stack_calls@ == old(
                self,
            ).num_create_function_stack_calls@.push(row.num_create_function_stack_calls),
            final(self).create_function_stack_calls@ == old(
                self,
            ).create_function_stack_calls@.push(row.create_function_stack_calls),
            final(self).num_create_function_only_calls@ == old(
                self,
            ).num_create_function_only_calls@.push(row.num_create_function_only_calls),
            final(self).create_function_only_calls@ == old(
                self,
            ).create_function_only_calls@.push(row.create_function_only_calls),
            final(self).first_call_row@ == old(self).first_call_row@.push(row.first_call_row),
            final(self).first_call_col@ == old(self).first_call_col@.push(row.first_call_col),
            final(self).last_call_row@ == old(self).last_call_row@.push(row.last_call_row),
            final(self).last_call_col@ == old(self).last_call_col@.push(row.last_call_col),
            final(self).file_paths@ == old(self).file_paths@.push(row.file_path),
    {
        self.service_names.push(row.service_name);
        self.terraform_resource_names.push(row.terraform_resource_name);
        self.aws_sdk_resource_names.push(row.aws_sdk_resource_name);
        self.num_before_sdk_calls.push(row.num_before_sdk_calls);
        self.before_sdk_calls.push(row.before_sdk_calls);
        self.num_intermediate_sdk_calls.push(row.num_intermediate_sdk_calls);
        self.intermediate_sdk_calls.push(row.intermediate_sdk_calls);
        self.num_after_sdk_calls.push(row.num_after_sdk_calls);
        self.after_sdk_calls.push(row.after_sdk_calls);
        self.num_create_function_stack_calls.push(row.num_create_function_stack_calls);
        self.create_function_stack_calls.push(row.create_function_stack_calls);
        self.num_create_function_only_calls.push(row.num_create_function_only_calls);
        self.create_function_only_calls.push(row.create_function_only_calls);
        self.first_call_row.push(row.first_call_row);
        self.first_call_col.push(row.first_call_col);
        self.last_call_row.push(row.last_call_row);
        self.last_call_col.push(row.last_call_col);
        self.file_paths.push(row.file_path);
    }
}

/// The names of a call list.
pub open spec fn call_names(calls: Seq<SdkMethodCall>) -> Seq<Seq<char>> {
    calls.map_values(|c: SdkMethodCall| c.name@)
}

/// The distinct call names of a phase, first occurrences kept.
pub fn unique_call_names(calls: &Vec<SdkMethodCall>) -> (r: Vec<String>)
    ensures
        views_of_strings(r@) == dedup_strings(call_names(calls@)),
{
    let mut names: Vec<String> = Vec::new();
    let mut k: usize = 0;
    proof {
        assert(views_of_strings(names@) =~= call_names(calls@).subrange(0, 0));
    }
    while k < calls.len()
        invariant
            k <= calls@.len(),
            views_of_strings(names@) == call_names(calls@).subrange(0, k as int),
        decreases calls@.len() - k,
    {
        let ghost old_names = names@;
        names.push(calls[k].name.clone());
        proof {
            assert(call_names(calls@)[k as int] == calls@[k as int].name@);
            assert(views_of_strings(names@) =~= views_of_strings(old_names).push(
                calls@[k as int].name@,
            ));
            assert(views_of_strings(names@) =~= call_names(calls@).subrange(0, k + 1));
        }
        k += 1;
    }
    proof {
        assert(call_names(calls@).subrange(0, calls@.len() as int) =~= call_names(calls@));
    }
    dedup_strings_exec(&names)
}

/// Assembles the analysis row of one resource: the metadata fields,
/// and each phase's distinct call names counted and joined.
pub fn build_analysis_row(
    metadata: &MetadataStruct,
    before: &Vec<String>,
    intermediate: &Vec<String>,
    after: &Vec<String>,
    stack: &Vec<String>,
    only: &Vec<String>,
) -> (r: ResourceAnalysisRow)
    requires
        before@.len() <= i32::MAX,
        intermediate@.len() <= i32::MAX,
        after@.len() <= i32::MAX,
        stack@.len() <= i32::MAX,
        only@.len() <= i32::MAX,
    ensures
        r.service_name@ == metadata.service_dir_name@,
        r.terraform_resource_name@ == metadata.terraform_resource_name@,
        r.aws_sdk_resource_name@ == metadata.sdk_resource_name@,
        r.num_before_sdk_calls == before@.len(),
        r.before_sdk_calls@ == join_spec(views_of_strings(before@), 0),
        r.num_intermediate_sdk_calls == intermediate@.len(),
        r.intermediate_sdk_calls@ == join_spec(views_of_strings(intermediate@), 0),
        r.num_after_sdk_calls == after@.len(),
        r.after_sdk_calls@ == join_spec(views_of_strings(after@), 0),
        r.num_create_function_stack_calls == stack@.len(),
        r.create_function_stack_calls@ == join_spec(views_of_strings(stack@), 0),
        r.num_create_function_only_calls == only@.len(),
        r.create_function_only_calls@ == join_spec(views_of_strings(only@), 0),
        r.first_call_row == metadata.first_call_row,
        r.first_call_col == metadata.first_call_col,
        r.last_call_row == metadata.last_call_row,
        r.last_call_col == metadata.last_call_col,
        r.file_path@ == metadata.file_path@,
{
    ResourceAnalysisRow {
        service_name: metadata.service_dir_name.clone(),
        terraform_resource_name: metadata.terraform_resource_name.clone(),
        aws_sdk_resource_name: metadata.sdk_resource_name.clone(),
        num_before_sdk_calls: before.len() as i32,
        before_sdk_calls: join_names(before),
        num_intermediate_sdk_calls: intermediate.len() as i32,
        intermediate_sdk_calls: join_names(intermediate),
        num_after_sdk_calls: after.len() as i32,
        after_sdk_calls: join_names(after),
        num_create_function_stack_calls: stack.len() as i32,
        create_function_stack_calls: join_names(stack),
        num_create_function_only_calls: only.len() as i32,
        create_function_only_calls: join_names(only),
        first_call_row: metadata.first_call_row,
        first_call_col: metadata.first_call_col,
        last_call_row: metadata.last_call_row,
        last_call_col: metadata.last_call_col,
        file_path: metadata.file_path.clone(),
    }
}

/// Assembles the exploded rows of one resource: one row per
/// create-function-only call, and a single row with an empty call
/// column when there are none.
pub fn build_exploded_rows(
    metadata: &MetadataStruct,
    before: &Vec<String>,
    intermediate: &Vec<String>,
    after: &Vec<String>,
    stack: &Vec<String>,
    only: &Vec<String>,
) -> (r: Vec<ResourceAnalysisRow>)
    requires
        before@.len() <= i32::MAX,
        intermediate@.len() <= i32::MAX,
        after@.len() <= i32::MAX,
        stack@.len() <= i32::MAX,
        only@.len() <= i32::MAX,
    ensures
        only@.len() == 0 ==> r@.len() == 1 && r@[0].num_create_function_only_calls == 0
            && r@[0].create_function_only_calls@.len() == 0,
        only@.len() > 0 ==> r@.len() == only@.len() && forall|i: int|
            0 <= i < r@.len() ==> {
                &&& (#[trigger] r@[i]).create_function_only_calls@ == only@[i]@
                &&& r@[i].num_create_function_only_calls == only@.len()
                &&& r@[i].service_name@ == metadata.service_dir_name@
            },
{
    let mut rows: Vec<ResourceAnalysisRow> = Vec::new();
    if only.len() == 0 {
        let mut row = build_analysis_row(metadata, before, intermediate, after, stack, only);
        row.num_create_function_only_calls = 0;
        row.create_function_only_calls = String::new();
        rows.push(row);
        return rows;
    }
    let mut k: usize = 0;
    while k < only.len()
        invariant
            k <= only@.len(),
            only@.len() <= i32::MAX,
            before@.len() <= i32::MAX,
            intermediate@.len() <= i32::MAX,
            after@.len() <= i32::MAX,
            stack@.len() <= i32::MAX,
            rows@.len() == k,
            forall|i: int|
                0 <= i < k ==> {
                    &&& (#[trigger] rows@[i]).create_function_only_calls@ == only@[i]@
                    &&& rows@[i].num_create_function_only_calls == only@.len()
                    &&& rows@[i].service_name@ == metadata.service_dir_name@
                },
        decreases only@.len() - k,
    {
        let mut row = build_analysis_row(metadata, before, intermediate, after, stack, only);
        row.create_function_only_calls = only[k].clone();
        rows.push(row);
        k += 1;
    }
    rows
}

/// The names joined with a comma and a space between them.
pub open spec fn join_spec(xs: Seq<Seq<char>>, k: int) -> Seq<char>
    decreases xs.len() - k when 0 <= k <= xs.len()
{
    if k >= xs.len() {
        Seq::empty()
    } else if k == xs.len() - 1 {
        xs[k]
    } else {
        xs[k] + ", "@ + join_spec(xs, k + 1)
    }
}

/// Joins names with `, ` between them, as the tabular output shows
/// them.
pub fn join_names(xs: &Vec<String>) -> (r: String)
    ensures
        r@ == join_spec(views_of_strings(xs@), 0),
{
    let ghost xv = views_of_strings(xs@);
    let mut out: Vec<char> = Vec::new();
    let mut k: usize = 0;
    proof {
        if xv.len() == 0 {
            assert(out@ + join_spec(xv, 0) =~= out@);
        } else {
            assert(out@ + join_spec(xv, 0) =~= join_spec(xv, 0));
        }
    }
    while k < xs.len()
        invariant
            k <= xs@.len(),
            xv == views_of_strings(xs@),
            join_spec(xv, 0) == out@ + join_spec(xv, k as int),
        decreases xs@.len() - k,
    {
        proof {
            assert(xv[k as int] == xs@[k as int]@);
        }
        let ghost out0 = out@;
        let piece = crate::text::str_to_chars(xs[k].as_str());
        crate::text::push_chars(&mut out, &piece);
        if k + 1 < xs.len() {
            out.push(',');
            out.push(' ');
            proof {
                reveal_strlit(", ");
                assert(join_spec(xv, k as int) == xv[k as int] + ", "@ + join_spec(xv, k + 1));
                assert(out@ =~= out0 + xv[k as int] + ", "@);
                assert(out0 + (xv[k as int] + ", "@ + join_spec(xv, k + 1)) =~= out@
                    + join_spec(xv, k + 1));
            }
        } else {
            proof {
                assert(join_spec(xv, k as int) == xv[k as int]);
                assert(out@ =~= out0 + xv[k as int]);
                assert(out0 + join_spec(xv, k as int) =~= out@ + join_spec(xv, k + 1));
            }
        }
        k += 1;
    }
    proof {
        assert(out@ + join_spec(xv, xv.len() as int) =~= out@);
    }
    chars_to_string(&out)
}

} // verus!
