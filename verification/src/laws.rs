//! The bridge's cross-cutting laws, each proved from the contracts the
//! public functions state.
//!
//! Laws that concern a single function — a fallible conversion fails
//! exactly on a tag mismatch, integer division by a guest zero fails
//! with the zero-division error — live in that function's `ensures`.
//! The laws here relate several functions: a conversion followed by its
//! inverse, boxing followed by unboxing, a checkpointed call region
//! followed by its restoration.

use vstd::prelude::*;
use vstd::utf8::{decode_utf8, encode_utf8, valid_utf8};

use crate::convert::array::int_values;
use crate::convert::string::string_bytes_at;
use crate::def::EnclosingRubyScope;
use crate::interp::{val_wf, HeapSlot, Interp};
use crate::value::Value;

verus! {

/// Round trip for byte strings: a guest string freshly allocated from a
/// host byte buffer reads back as exactly that buffer. Together with the
/// contract of `try_convert_mut_bytes`, converting a buffer in and back
/// out is the identity.
pub proof fn lemma_bytes_round_trip(heap: Seq<HeapSlot>, bytes: Vec<u8>, frozen: bool)
    ensures
        ({
            let post = heap.push(HeapSlot::String { bytes, frozen });
            let v = Value::String(heap.len() as usize);
            &&& heap.len() <= usize::MAX ==> val_wf(post, v) && string_bytes_at(post, v) == bytes@
        }),
{
}

/// Round trip for UTF-8 strings: a host string's UTF-8 encoding is valid
/// UTF-8, and no other string encodes to the same bytes. Together with
/// the contracts of `convert_mut_str` and `try_convert_mut_string`,
/// converting a UTF-8 string in and back out is the identity.
pub proof fn lemma_utf8_round_trip(s: Seq<char>)
    ensures
        valid_utf8(encode_utf8(s)),
        decode_utf8(encode_utf8(s)) == s,
        forall|t: Seq<char>| encode_utf8(t) == encode_utf8(s) ==> t == s,
{
    vstd::utf8::encode_utf8_valid_utf8(s);
    vstd::utf8::encode_utf8_decode_utf8(s);
    assert forall|t: Seq<char>| encode_utf8(t) == encode_utf8(s) implies t == s by {
        vstd::utf8::encode_utf8_decode_utf8(t);
    }
}

/// Round trip for integer sequences: the guest values representing a
/// host integer sequence are all guest integers, and their payloads,
/// read back in order, are the original sequence. Together with the
/// contracts of `try_convert_mut_int_vec` and
/// `try_convert_mut_to_int_vec`, converting an integer sequence in and
/// back out is the identity.
pub proof fn lemma_int_vec_round_trip(xs: Seq<i64>)
    ensures
        int_values(xs).len() == xs.len(),
        forall|k: int| 0 <= k < xs.len() ==> (#[trigger] int_values(xs)[k]) is Fixnum,
        forall|k: int| 0 <= k < xs.len() ==> (#[trigger] int_values(xs)[k])->Fixnum_0 == xs[k],
        forall|ys: Seq<i64>| int_values(ys) == int_values(xs) ==> ys == xs,
{
    assert forall|ys: Seq<i64>| int_values(ys) == int_values(xs) implies ys == xs by {
        assert(ys =~= xs) by {
            assert(int_values(ys).len() == ys.len());
            assert forall|k: int| 0 <= k < ys.len() implies ys[k] == xs[k] by {
                assert(int_values(ys)[k] == int_values(xs)[k]);
            }
        }
    }
}

/// Container structural fidelity: converting a host sequence of length
/// `n` produces a guest array reporting length `n`, and emptiness
/// exactly when `n` is zero. Together with the contracts of
/// `try_convert_mut_int_vec`, `array_len` and `array_is_empty`.
pub proof fn lemma_container_structural_fidelity(heap: Seq<HeapSlot>, items: Vec<Value>)
    ensures
        ({
            let post = heap.push(HeapSlot::Array { items });
            let v = Value::Array(heap.len() as usize);
            &&& heap.len() <= usize::MAX ==> {
                &&& val_wf(post, v)
                &&& post[v->Array_0 as int]->Array_items@.len() == items@.len()
                &&& (post[v->Array_0 as int]->Array_items@.len() == 0 <==> items@.len() == 0)
            }
        }),
{
}

/// Boxing identity: a value boxed under one registered class identity
/// carries exactly that identity and its original payload, so by the
/// contract of `unbox`, unboxing it as the same class yields the
/// original payload, and unboxing it as any other registered class
/// fails the class-identity check.
pub proof fn lemma_box_unbox_identity(
    pre: Interp,
    post: Interp,
    class_a: usize,
    class_b: usize,
    data: Vec<u8>,
    v: Value,
)
    requires
        class_a != class_b,
        v == Value::Data(pre.heap@.len() as usize),
        pre.heap@.len() <= usize::MAX,
        post.heap@ == pre.heap@.push(
            HeapSlot::Data { class: class_a, payload: pre.boxed@.len() as usize },
        ),
        pre.boxed@.len() <= usize::MAX,
        post.boxed@.len() == pre.boxed@.len() + 1,
        post.boxed@.last().data == data,
    ensures
        val_wf(post.heap@, v),
        post.heap@[v->Data_0 as int]->Data_class == class_a,
        post.heap@[v->Data_0 as int]->Data_class != class_b,
        post.boxed@[post.heap@[v->Data_0 as int]->Data_payload as int].data == data,
{
    assert(post.heap@[v->Data_0 as int] == HeapSlot::Data {
        class: class_a,
        payload: pre.boxed@.len() as usize,
    });
    assert(post.boxed@[pre.boxed@.len() as int] == post.boxed@.last());
}

/// One checkpointed call region leaves the root-protection arena exactly
/// as it found it: whatever a region roots on top of the checkpoint,
/// restoring the checkpoint truncates back to the original arena. This
/// is the contract of `create_arena_savepoint` and `restore` restated
/// over the arena's contents.
pub proof fn lemma_arena_region_balanced(arena: Seq<Value>, rooted: Seq<Value>)
    ensures
        (arena + rooted).subrange(0, arena.len() as int) == arena,
{
    assert((arena + rooted).subrange(0, arena.len() as int) =~= arena);
}

/// What a sequence of checkpointed call regions leaves in the arena:
/// each region roots some values and then restores its checkpoint, so
/// the arena after every region is the arena before it.
pub open spec fn run_regions(arena: Seq<Value>, regions: Seq<Seq<Value>>) -> Seq<Value>
    decreases regions.len(),
{
    if regions.len() == 0 {
        arena
    } else {
        run_regions(
            (arena + regions[0]).subrange(0, arena.len() as int),
            regions.skip(1),
        )
    }
}

/// Arena bounding: any number of independent guest-evaluation calls,
/// each wrapped in its own checkpoint, leaves the number of rooted
/// values exactly where it started — bounded independently of how many
/// regions ran and how much each rooted.
pub proof fn lemma_arena_bounded(arena: Seq<Value>, regions: Seq<Seq<Value>>)
    ensures
        run_regions(arena, regions) == arena,
    decreases regions.len(),
{
    if regions.len() > 0 {
        lemma_arena_region_balanced(arena, regions[0]);
        lemma_arena_bounded(arena, regions.skip(1));
    }
}

/// The names along a scope's owner chain, root first.
pub open spec fn scope_chain_names(scope: EnclosingRubyScope) -> Seq<Seq<char>>
    decreases scope.height_spec(),
{
    match scope.enclosing_spec() {
        Some(outer) => scope_chain_names(outer).push(scope.name_spec()),
        None => seq![scope.name_spec()],
    }
}

/// The chain's names joined with the scope separator, root first.
pub open spec fn join_names(names: Seq<Seq<char>>) -> Seq<char>
    decreases names.len(),
{
    if names.len() == 0 {
        Seq::empty()
    } else if names.len() == 1 {
        names[0]
    } else {
        join_names(names.drop_last()) + "::"@ + names.last()
    }
}

/// Scope fully-qualified naming: a scope's fully qualified name is the
/// names along its owner chain, root first, joined with the scope
/// separator.
pub proof fn lemma_fqname_is_joined_chain(scope: EnclosingRubyScope)
    ensures
        scope.fqname_spec() == join_names(scope_chain_names(scope)),
    decreases scope.height_spec() + 1,
{
    match scope.enclosing_spec() {
        Some(outer) => {
            assert(outer.height_spec() < scope.height_spec());
            lemma_fqname_is_joined_chain(outer);
            let names = scope_chain_names(scope);
            assert(names.drop_last() =~= scope_chain_names(outer));
            assert(names.last() == scope.name_spec());
            assert(names.len() >= 2) by {
                assert(scope_chain_names(outer).len() >= 1) by {
                    lemma_chain_nonempty(outer);
                }
            }
        },
        None => {},
    }
}

/// An owner chain always has at least the scope's own name in it.
proof fn lemma_chain_nonempty(scope: EnclosingRubyScope)
    ensures
        scope_chain_names(scope).len() >= 1,
    decreases scope.height_spec() + 1,
{
    match scope.enclosing_spec() {
        Some(outer) => {
            lemma_chain_nonempty(outer);
        },
        None => {},
    }
}

} // verus!
