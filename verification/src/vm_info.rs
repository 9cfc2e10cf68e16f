//! VM information parser: decoding the block-structured snapshot output
//! (argument lines plus resource limits) of the diagnostic command.

use vstd::prelude::*;

use crate::model::{VmArguments, VmArgumentsV, VmInformation, VmInformationV, VmResources,
    VmResourcesV};
use crate::text;

verus! {

/// Effect of one row of a `VM Arguments:` block on the scanned fields:
/// rows prefixed `jvm_args:` / `java_command:` set their field to the
/// trimmed remainder, later rows winning; other rows change nothing.
pub open spec fn spec_args_step(acc: VmArgumentsV, row: Seq<char>) -> VmArgumentsV {
    if text::match_at(row, "jvm_args:"@, 0) {
        VmArgumentsV {
            jvm_args: Some(text::spec_trim(row.skip("jvm_args:"@.len() as int))),
            java_command: acc.java_command,
        }
    } else if text::match_at(row, "java_command:"@, 0) {
        VmArgumentsV {
            jvm_args: acc.jvm_args,
            java_command: Some(text::spec_trim(row.skip("java_command:"@.len() as int))),
        }
    } else {
        acc
    }
}

/// Fold `spec_args_step` over the rows of a block.
pub open spec fn spec_scan_args(rows: Seq<Seq<char>>, acc: VmArgumentsV) -> VmArgumentsV
    decreases rows.len(),
{
    if rows.len() == 0 {
        acc
    } else {
        spec_scan_args(rows.skip(1), spec_args_step(acc, rows[0]))
    }
}

/// Effect of one row of a `GC Precious Log:` block on the resource fields.
/// Two label families fill the same heap fields: the generational labels
/// (`Heap Min/Initial/Max Capacity:`) and the region-based ones
/// (`Min/Initial/Max Capacity:`); later rows win.
pub open spec fn spec_resources_step(acc: VmResourcesV, row: Seq<char>) -> VmResourcesV {
    if text::match_at(row, " CPUs:"@, 0) {
        VmResourcesV { cpus: Some(text::spec_trim(row.skip(" CPUs:"@.len() as int))), ..acc }
    } else if text::match_at(row, " Memory:"@, 0) {
        VmResourcesV { memory: Some(text::spec_trim(row.skip(" Memory:"@.len() as int))), ..acc }
    } else if text::match_at(row, " Heap Min Capacity:"@, 0) {
        VmResourcesV {
            heap_size_min: Some(text::spec_trim(row.skip(" Heap Min Capacity:"@.len() as int))),
            ..acc
        }
    } else if text::match_at(row, " Min Capacity:"@, 0) {
        VmResourcesV {
            heap_size_min: Some(text::spec_trim(row.skip(" Min Capacity:"@.len() as int))),
            ..acc
        }
    } else if text::match_at(row, " Heap Initial Capacity:"@, 0) {
        VmResourcesV {
            heap_size_init: Some(text::spec_trim(row.skip(" Heap Initial Capacity:"@.len() as int))),
            ..acc
        }
    } else if text::match_at(row, " Initial Capacity:"@, 0) {
        VmResourcesV {
            heap_size_init: Some(text::spec_trim(row.skip(" Initial Capacity:"@.len() as int))),
            ..acc
        }
    } else if text::match_at(row, " Heap Max Capacity:"@, 0) {
        VmResourcesV {
            heap_size_max: Some(text::spec_trim(row.skip(" Heap Max Capacity:"@.len() as int))),
            ..acc
        }
    } else if text::match_at(row, " Max Capacity:"@, 0) {
        VmResourcesV {
            heap_size_max: Some(text::spec_trim(row.skip(" Max Capacity:"@.len() as int))),
            ..acc
        }
    } else {
        acc
    }
}

/// Fold `spec_resources_step` over the rows of a block.
pub open spec fn spec_scan_resources(rows: Seq<Seq<char>>, acc: VmResourcesV) -> VmResourcesV
    decreases rows.len(),
{
    if rows.len() == 0 {
        acc
    } else {
        spec_scan_resources(rows.skip(1), spec_resources_step(acc, rows[0]))
    }
}

/// Effect of one blank-line-separated block on the snapshot: a block whose
/// first row starts with `VM Arguments:` sets the argument fields, one whose
/// first row starts with `GC Precious Log:` sets the resource fields, any
/// other block is ignored.
pub open spec fn spec_info_step(acc: VmInformationV, block: Seq<char>) -> VmInformationV {
    let rows = text::spec_split(block, "\n"@);
    if text::match_at(rows[0], "VM Arguments:"@, 0) {
        VmInformationV {
            vm_arguments: Some(
                spec_scan_args(rows, VmArgumentsV { jvm_args: None, java_command: None }),
            ),
            vm_resources: acc.vm_resources,
        }
    } else if text::match_at(rows[0], "GC Precious Log:"@, 0) {
        VmInformationV {
            vm_arguments: acc.vm_arguments,
            vm_resources: Some(
                spec_scan_resources(
                    rows,
                    VmResourcesV {
                        cpus: None,
                        memory: None,
                        heap_size_min: None,
                        heap_size_init: None,
                        heap_size_max: None,
                    },
                ),
            ),
        }
    } else {
        acc
    }
}

/// Fold `spec_info_step` over the blocks.
pub open spec fn spec_info_fold(blocks: Seq<Seq<char>>, acc: VmInformationV) -> VmInformationV
    decreases blocks.len(),
{
    if blocks.len() == 0 {
        acc
    } else {
        spec_info_fold(blocks.skip(1), spec_info_step(acc, blocks[0]))
    }
}

/// The snapshot written by a full VM information output: its blocks, split
/// on blank lines, folded over an empty snapshot. A missing block leaves its
/// fields `None`.
pub open spec fn spec_parse_vm_information(output: Seq<char>) -> VmInformationV {
    spec_info_fold(
        text::spec_split(output, "\n\n"@),
        VmInformationV { vm_arguments: None, vm_resources: None },
    )
}

/// Scan the rows of a `VM Arguments:` block.
fn scan_args_block(rows: &Vec<&str>) -> (r: VmArguments)
    ensures
        r@ == spec_scan_args(
            text::views_of(rows@),
            VmArgumentsV { jvm_args: None, java_command: None },
        ),
{
    let ghost rv = text::views_of(rows@);
    let mut jvm_args: Option<String> = None;
    let mut java_command: Option<String> = None;
    let mut i: usize = 0;
    proof {
        assert(rv.skip(0) =~= rv);
    }
    while i < rows.len()
        invariant
            rv == text::views_of(rows@),
            i <= rows@.len(),
            spec_scan_args(
                rv.skip(i as int),
                VmArgumentsV { jvm_args: crate::model::opt_view(jvm_args), java_command: crate::model::opt_view(java_command) },
            ) == spec_scan_args(rv, VmArgumentsV { jvm_args: None, java_command: None }),
        decreases rows@.len() - i,
    {
        let row = rows[i];
        proof {
            assert(rv.skip(i as int)[0] == rv[i as int]);
            assert(rv.skip(i as int).skip(1) =~= rv.skip(i + 1));
            assert(rv[i as int] == row@);
        }
        if text::starts_with(row, "jvm_args:") {
            jvm_args = Some(text::trim(text::strip_prefix(row, "jvm_args:")).to_owned());
        } else if text::starts_with(row, "java_command:") {
            java_command = Some(text::trim(text::strip_prefix(row, "java_command:")).to_owned());
        }
        i += 1;
    }
    proof {
        assert(rv.skip(rv.len() as int) =~= Seq::<Seq<char>>::empty());
    }
    VmArguments { jvm_args, java_command }
}

/// Scan the rows of a `GC Precious Log:` block.
fn scan_resources_block(rows: &Vec<&str>) -> (r: VmResources)
    ensures
        r@ == spec_scan_resources(
            text::views_of(rows@),
            VmResourcesV {
                cpus: None,
                memory: None,
                heap_size_min: None,
                heap_size_init: None,
                heap_size_max: None,
            },
        ),
{
    let ghost rv = text::views_of(rows@);
    let mut cpus: Option<String> = None;
    let mut memory: Option<String> = None;
    let mut heap_size_min: Option<String> = None;
    let mut heap_size_init: Option<String> = None;
    let mut heap_size_max: Option<String> = None;
    let mut i: usize = 0;
    proof {
        assert(rv.skip(0) =~= rv);
    }
    while i < rows.len()
        invariant
            rv == text::views_of(rows@),
            i <= rows@.len(),
            spec_scan_resources(
                rv.skip(i as int),
                VmResourcesV {
                    cpus: crate::model::opt_view(cpus),
                    memory: crate::model::opt_view(memory),
                    heap_size_min: crate::model::opt_view(heap_size_min),
                    heap_size_init: crate::model::opt_view(heap_size_init),
                    heap_size_max: crate::model::opt_view(heap_size_max),
                },
            ) == spec_scan_resources(
                rv,
                VmResourcesV {
                    cpus: None,
                    memory: None,
                    heap_size_min: None,
                    heap_size_init: None,
                    heap_size_max: None,
                },
            ),
        decreases rows@.len() - i,
    {
        let row = rows[i];
        proof {
            assert(rv.skip(i as int)[0] == rv[i as int]);
            assert(rv.skip(i as int).skip(1) =~= rv.skip(i + 1));
            assert(rv[i as int] == row@);
        }
        if text::starts_with(row, " CPUs:") {
            cpus = Some(text::trim(text::strip_prefix(row, " CPUs:")).to_owned());
        } else if text::starts_with(row, " Memory:") {
            memory = Some(text::trim(text::strip_prefix(row, " Memory:")).to_owned());
        } else if text::starts_with(row, " Heap Min Capacity:") {
            heap_size_min = Some(
                text::trim(text::strip_prefix(row, " Heap Min Capacity:")).to_owned(),
            );
        } else if text::starts_with(row, " Min Capacity:") {
            heap_size_min = Some(text::trim(text::strip_prefix(row, " Min Capacity:")).to_owned());
        } else if text::starts_with(row, " Heap Initial Capacity:") {
            heap_size_init = Some(
                text::trim(text::strip_prefix(row, " Heap Initial Capacity:")).to_owned(),
            );
        } else if text::starts_with(row, " Initial Capacity:") {
            heap_size_init = Some(
                text::trim(text::strip_prefix(row, " Initial Capacity:")).to_owned(),
            );
        } else if text::starts_with(row, " Heap Max Capacity:") {
            heap_size_max = Some(
                text::trim(text::strip_prefix(row, " Heap Max Capacity:")).to_owned(),
            );
        } else if text::starts_with(row, " Max Capacity:") {
            heap_size_max = Some(text::trim(text::strip_prefix(row, " Max Capacity:")).to_owned());
        }
        i += 1;
    }
    proof {
        assert(rv.skip(rv.len() as int) =~= Seq::<Seq<char>>::empty());
    }
    VmResources { cpus, memory, heap_size_min, heap_size_init, heap_size_max }
}

/// Decode a VM information snapshot from the diagnostic command's output.
/// The parse is a pure function of the text: no cache is involved, and the
/// same output always yields the same snapshot.
pub fn parse_vm_information(output: &str) -> (r: VmInformation)
    ensures
        r@ == spec_parse_vm_information(output@),
{
    proof {
        reveal_strlit("\n\n");
    }
    let blocks = text::split_str(output, "\n\n");
    let ghost bv = text::views_of(blocks@);
    let mut vm_arguments: Option<VmArguments> = None;
    let mut vm_resources: Option<VmResources> = None;
    let ghost init = VmInformationV { vm_arguments: None, vm_resources: None };
    let mut i: usize = 0;
    proof {
        assert(bv.skip(0) =~= bv);
    }
    while i < blocks.len()
        invariant
            bv == text::views_of(blocks@),
            i <= blocks@.len(),
            init == (VmInformationV { vm_arguments: None, vm_resources: None }),
            spec_info_fold(
                bv.skip(i as int),
                VmInformationV {
                    vm_arguments: match vm_arguments {
                        Some(a) => Some(a@),
                        None => None,
                    },
                    vm_resources: match vm_resources {
                        Some(r) => Some(r@),
                        None => None,
                    },
                },
            ) == spec_info_fold(bv, init),
        decreases blocks@.len() - i,
    {
        let block = blocks[i];
        proof {
            reveal_strlit("\n");
            assert(bv.skip(i as int)[0] == bv[i as int]);
            assert(bv.skip(i as int).skip(1) =~= bv.skip(i + 1));
            assert(bv[i as int] == block@);
        }
        let rows = text::split_str(block, "\n");
        proof {
            assert(text::views_of(rows@)[0] == rows@[0]@);
        }
        let first = rows[0];
        if text::starts_with(first, "VM Arguments:") {
            vm_arguments = Some(scan_args_block(&rows));
        } else if text::starts_with(first, "GC Precious Log:") {
            vm_resources = Some(scan_resources_block(&rows));
        }
        i += 1;
    }
    proof {
        assert(bv.skip(bv.len() as int) =~= Seq::<Seq<char>>::empty());
    }
    VmInformation { vm_arguments, vm_resources }
}

} // verus!
