//! Bridge support for the command-line front end: marshaling the
//! program's arguments into the guest and rendering load failures.
//!
//! The front end itself — argument parsing, reading program text,
//! evaluation and exit codes — lives outside the bridge; it hands plain
//! byte buffers in and takes plain values back.

use vstd::prelude::*;
use vstd::string::StringSliceAdditionalSpecFns;
use vstd::utf8::encode_utf8;

use crate::convert::string::string_bytes_at;
use crate::error::Error;
use crate::interp::{global_lookup, val_wf, HeapSlot, Interp};
use crate::string::{escape_bytes, escape_bytes_vec};
use crate::value::Value;

verus! {

impl Interp {
    /// Inject the program's arguments: convert each argument to a frozen
    /// guest string, collect them into one guest array, and define the
    /// `ARGV` global constant as that array.
    pub fn define_argv(&mut self, argv: Vec<Vec<u8>>) -> (r: Result<(), Error>)
        requires
            old(self).wf(),
        ensures
            final(self).wf(),
            final(self).classes == old(self).classes,
            final(self).symbols == old(self).symbols,
            final(self).boxed == old(self).boxed,
            final(self).anomalies == old(self).anomalies,
            r is Ok,
            ({
                let looked = global_lookup(final(self).globals@, "ARGV".spec_bytes());
                &&& looked matches Some(ary)
                &&& ary is Array
                &&& val_wf(final(self).heap@, ary)
                &&& {
                    let items = final(self).heap@[ary->Array_0 as int]->Array_items@;
                    &&& items.len() == argv@.len()
                    &&& forall|k: int|
                        0 <= k < items.len() ==> (#[trigger] items[k]) is String
                            && string_bytes_at(final(self).heap@, items[k]) == argv@[k]@
                            && final(self).heap@[items[k]->String_0 as int]->String_frozen
                }
            }),
    {
        proof {
            reveal_strlit("ARGV");
            crate::string::lemma_ascii_no_nul("ARGV");
        }
        let mut items: Vec<Value> = Vec::new();
        let mut j: usize = 0;
        let n = argv.len();
        while j < n
            invariant
                old(self).wf(),
                self.wf(),
                0 <= j <= argv@.len(),
                n == argv@.len(),
                self.heap@.len() >= old(self).heap@.len(),
                self.globals == old(self).globals,
                self.classes == old(self).classes,
                self.symbols == old(self).symbols,
                self.boxed == old(self).boxed,
                self.anomalies == old(self).anomalies,
                items@.len() == j,
                forall|k: int|
                    0 <= k < j ==> (#[trigger] items@[k]) is String && val_wf(
                        self.heap@,
                        items@[k],
                    ) && string_bytes_at(self.heap@, items@[k]) == argv@[k]@
                        && self.heap@[items@[k]->String_0 as int]->String_frozen,
            decreases argv@.len() - j,
        {
            let ghost heap_pre = self.heap@;
            let ghost items_pre = items@;
            let v = self.convert_mut_byte_slice(argv[j].as_slice());
            self.freeze(&v);
            items.push(v);
            proof {
                assert forall|k: int|
                    0 <= k < j + 1 implies (#[trigger] items@[k]) is String && val_wf(
                    self.heap@,
                    items@[k],
                ) && string_bytes_at(self.heap@, items@[k]) == argv@[k]@
                    && self.heap@[items@[k]->String_0 as int]->String_frozen by {
                    if k < j {
                        assert(items@[k] == items_pre[k]);
                        let id = items_pre[k]->String_0 as int;
                        assert(self.heap@.subrange(0, heap_pre.len() as int) =~= heap_pre);
                        assert(self.heap@[id] == heap_pre[id]);
                    }
                }
            }
            j = j + 1;
        }
        let ghost heap_mid = self.heap@;
        let ghost items_fin = items@;
        let ary = self.alloc_array(items);
        proof {
            assert(self.heap@[ary->Array_0 as int]->Array_items@ == items_fin);
            assert forall|k: int| 0 <= k < items_fin.len() implies (
            #[trigger] items_fin[k]) is String && string_bytes_at(self.heap@, items_fin[k])
                == argv@[k]@ && self.heap@[items_fin[k]->String_0 as int]->String_frozen by {
                let id = items_fin[k]->String_0 as int;
                assert(self.heap@[id] == heap_mid[id]);
            }
        }
        let result = self.define_global_constant("ARGV", ary);
        proof {
            assert(result is Ok);
        }
        Ok(())
    }
}

/// Render a load failure: the message, a separator, and the offending
/// path with every byte escaped, so that arbitrary path bytes stay
/// readable in diagnostics.
pub fn load_error(path: &[u8], message: &str) -> (r: Vec<u8>)
    ensures
        r@ == encode_utf8(message@) + " -- ".spec_bytes() + escape_bytes(path@),
{
    let mut buf = vstd::slice::slice_to_vec(message.as_bytes());
    buf.extend_from_slice(" -- ".as_bytes());
    let escaped = escape_bytes_vec(path);
    buf.extend_from_slice(escaped.as_slice());
    proof {
        assert(buf@ =~= encode_utf8(message@) + " -- ".spec_bytes() + escape_bytes(path@));
    }
    buf
}

/// How the command-line front end executes: the guest's copyright
/// notice, inline command strings, a program file, or standard input.
#[derive(Debug, Clone, Copy, PartialEq, Eq, Structural)]
pub enum ExecutionMode {
    /// Print the guest's copyright notice and exit.
    PrintCopyright,
    /// Evaluate the inline command strings, in order.
    InlineEval,
    /// Evaluate the named program file.
    ProgramFile,
    /// Read the program from standard input.
    Stdin,
}

/// What the front end does for a given set of parsed arguments: the
/// copyright flag wins; otherwise inline commands, if any were given;
/// otherwise the program file, unless it is the conventional standard
/// input marker; otherwise standard input.
pub open spec fn execution_mode_spec(
    copyright: bool,
    ncommands: nat,
    programfile: Option<Seq<u8>>,
) -> ExecutionMode {
    if copyright {
        ExecutionMode::PrintCopyright
    } else if ncommands > 0 {
        ExecutionMode::InlineEval
    } else {
        match programfile {
            Some(path) => if path =~= seq![45u8] {
                ExecutionMode::Stdin
            } else {
                ExecutionMode::ProgramFile
            },
            None => ExecutionMode::Stdin,
        }
    }
}

/// Decide how the front end executes, from the parsed arguments: the
/// decision the evaluation loop dispatches on.
pub fn execution_mode(
    copyright: bool,
    commands: &Vec<Vec<u8>>,
    programfile: &Option<Vec<u8>>,
) -> (r: ExecutionMode)
    ensures
        r == execution_mode_spec(
            copyright,
            commands@.len(),
            match programfile {
                Some(p) => Some(p@),
                None => None,
            },
        ),
{
    if copyright {
        ExecutionMode::PrintCopyright
    } else if commands.len() > 0 {
        ExecutionMode::InlineEval
    } else {
        match programfile {
            Some(path) => {
                if path.len() == 1 && path[0] == 45 {
                    proof {
                        assert(path@ =~= seq![45u8]);
                    }
                    ExecutionMode::Stdin
                } else {
                    proof {
                        assert(!(path@ =~= seq![45u8]));
                    }
                    ExecutionMode::ProgramFile
                }
            },
            None => ExecutionMode::Stdin,
        }
    }
}

} // verus!
