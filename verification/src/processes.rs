//! Process directory lookup: decoding the diagnostic tool's bare-invocation
//! output, one candidate process per line.

use vstd::prelude::*;

use crate::model::{lemma_procs_view_push, procs_view, JvmProcessRef, JvmProcessRefV, JvmProcesses};
use crate::text;

verus! {

/// The process reference written by one directory line: `None` when the line
/// names the monitoring tool's own launcher class or has fewer than two
/// space-separated tokens; otherwise id and name from the first two tokens,
/// and the remaining tokens, joined with spaces, as the path when present.
pub open spec fn spec_line_process(line: Seq<char>) -> Option<JvmProcessRefV> {
    if text::contains_seq(line, "jdk.jcmd"@) {
        None
    } else {
        let parts = text::spec_split(line, " "@);
        if parts.len() < 2 {
            None
        } else if parts.len() >= 3 {
            Some(
                JvmProcessRefV {
                    id: parts[0],
                    name: parts[1],
                    path: Some(text::spec_join(parts.skip(2), " "@)),
                },
            )
        } else {
            Some(JvmProcessRefV { id: parts[0], name: parts[1], path: None })
        }
    }
}

/// The process references of the given lines, in order.
pub open spec fn spec_processes(lines: Seq<Seq<char>>) -> Seq<JvmProcessRefV>
    decreases lines.len(),
{
    if lines.len() == 0 {
        Seq::empty()
    } else {
        match spec_line_process(lines[0]) {
            Some(p) => seq![p] + spec_processes(lines.skip(1)),
            None => spec_processes(lines.skip(1)),
        }
    }
}

/// The process directory written by the tool's bare-invocation output.
pub open spec fn spec_parse_jvm_processes(output: Seq<char>) -> Seq<JvmProcessRefV> {
    spec_processes(text::spec_split(output, "\n"@))
}

/// Decode the process directory from the tool's bare-invocation output.
pub fn parse_jvm_processes(output: &str) -> (r: JvmProcesses)
    ensures
        r@ == spec_parse_jvm_processes(output@),
{
    proof {
        reveal_strlit("\n");
        reveal_strlit(" ");
    }
    let lines = text::split_str(output, "\n");
    let ghost lv = text::views_of(lines@);
    let mut processes: Vec<JvmProcessRef> = Vec::new();
    let mut i: usize = 0;
    proof {
        assert(lv.skip(0) =~= lv);
        assert(procs_view(processes@) + spec_processes(lv) =~= spec_processes(lv));
    }
    while i < lines.len()
        invariant
            lv == text::views_of(lines@),
            i <= lines@.len(),
            procs_view(processes@) + spec_processes(lv.skip(i as int)) == spec_processes(lv),
        decreases lines@.len() - i,
    {
        let ghost old_procs = processes@;
        let line = lines[i];
        proof {
            reveal_strlit(" ");
            assert(lv[i as int] == line@);
            assert(lv.skip(i as int)[0] == lv[i as int]);
            assert(lv.skip(i as int).skip(1) =~= lv.skip(i + 1));
        }
        if !text::contains_sub(line, "jdk.jcmd") {
            let parts = text::split_str(line, " ");
            let ghost pv = text::views_of(parts@);
            if parts.len() >= 2 {
                let id = parts[0].to_owned();
                let name = parts[1].to_owned();
                if parts.len() >= 3 {
                    let mut tail: Vec<&str> = Vec::new();
                    let mut j: usize = 2;
                    proof {
                        assert(text::views_of(tail@) =~= pv.skip(2).take(0));
                    }
                    while j < parts.len()
                        invariant
                            pv == text::views_of(parts@),
                            2 <= j <= parts@.len(),
                            text::views_of(tail@) == pv.skip(2).take(j - 2),
                        decreases parts@.len() - j,
                    {
                        let ghost old_tail = tail@;
                        tail.push(parts[j]);
                        proof {
                            assert(text::views_of(tail@) =~= text::views_of(old_tail).push(
                                parts@[j as int]@,
                            ));
                            assert(pv.skip(2).take(j - 2 + 1) =~= pv.skip(2).take(j - 2).push(
                                pv[j as int],
                            ));
                        }
                        j += 1;
                    }
                    proof {
                        assert(pv.skip(2).take(parts@.len() - 2) =~= pv.skip(2));
                    }
                    let path = text::join_strs(&tail, " ");
                    processes.push(JvmProcessRef { id, name, path: Some(path) });
                } else {
                    processes.push(JvmProcessRef { id, name, path: None });
                }
                proof {
                    let p = processes@[processes@.len() - 1];
                    lemma_procs_view_push(old_procs, p);
                    assert(spec_line_process(lv[i as int]) == Some(p@));
                    assert(procs_view(processes@) + spec_processes(lv.skip(i + 1)) =~= procs_view(
                        old_procs,
                    ) + (seq![p@] + spec_processes(lv.skip(i + 1))));
                }
            }
        }
        i += 1;
    }
    proof {
        assert(lv.skip(lv.len() as int) =~= Seq::<Seq<char>>::empty());
        assert(procs_view(processes@) + Seq::<JvmProcessRefV>::empty() =~= procs_view(
            processes@,
        ));
    }
    JvmProcesses { processes }
}

} // verus!
