//! The identity of one call: a hash of its arguments and a hash of the
//! operation's code version.
use vstd::prelude::*;

use std::collections::hash_map::DefaultHasher;
use std::hash::Hasher;
use vstd::std_specs::hash::DefaultHasherAdditionalSpecFns;

use crate::decimal::{decimal, push_decimal};

verus! {

/// One named argument of a call, already encoded as bytes by the caller.
pub struct Arg {
    pub name: String,
    pub value: Vec<u8>,
}

/// The (args_hash, code_hash) pair that identifies one logical invocation.
#[derive(Clone, Copy, Debug, PartialEq, Eq, Structural)]
pub struct Fingerprint {
    pub args_hash: u64,
    pub code_hash: u64,
}

/// Whether `name` is one of `excluded`.
pub open spec fn is_excluded(name: Seq<char>, excluded: Seq<String>) -> bool {
    exists|j: int| 0 <= j < excluded.len() && (#[trigger] excluded[j])@ == name
}

/// The values of the arguments that take part in the hash, in order.
pub open spec fn selected(args: Seq<Arg>, excluded: Seq<String>) -> Seq<Seq<u8>>
    decreases args.len(),
{
    if args.len() == 0 {
        Seq::empty()
    } else if is_excluded(args.last().name@, excluded) {
        selected(args.drop_last(), excluded)
    } else {
        selected(args.drop_last(), excluded).push(args.last().value@)
    }
}

/// Each value framed by its length in decimal and a colon, so that no two
/// lists of values give the same bytes.
pub open spec fn encode_values(values: Seq<Seq<u8>>) -> Seq<u8>
    decreases values.len(),
{
    if values.len() == 0 {
        Seq::empty()
    } else {
        encode_values(values.drop_last()) + decimal(values.last().len()).push(58u8)
            + values.last()
    }
}

/// The hash of a list of values: one write of their encoding into a fresh
/// `DefaultHasher`.
pub open spec fn hash_of(values: Seq<Seq<u8>>) -> u64 {
    DefaultHasher::spec_finish(seq![encode_values(values)])
}

/// Calls that agree on every argument not excluded, name by name and in
/// order, have the same argument hash, whatever their excluded arguments hold.
pub proof fn lemma_excluded_values_ignored(args: Seq<Arg>, other: Seq<Arg>, excluded: Seq<String>)
    requires
        args.len() == other.len(),
        forall|i: int|
            0 <= i < args.len() ==> (#[trigger] args[i]).name@ == other[i].name@ && (is_excluded(
                args[i].name@,
                excluded,
            ) || args[i].value@ == other[i].value@),
    ensures
        selected(args, excluded) == selected(other, excluded),
        hash_of(selected(args, excluded)) == hash_of(selected(other, excluded)),
    decreases args.len(),
{
    if args.len() > 0 {
        let (a, o) = (args.drop_last(), other.drop_last());
        assert forall|i: int| 0 <= i < a.len() implies (#[trigger] a[i]).name@ == o[i].name@ && (
        is_excluded(a[i].name@, excluded) || a[i].value@ == o[i].value@) by {
            assert(a[i] == args[i] && o[i] == other[i]);
        }
        lemma_excluded_values_ignored(a, o, excluded);
        assert(args[args.len() - 1] == args.last());
    }
}

/// Appends `value`, framed as [`encode_values`] frames it, to `out`.
fn push_frame(out: &mut Vec<u8>, value: &Vec<u8>)
    ensures
        final(out)@ == old(out)@ + decimal(value@.len()).push(58u8) + value@,
{
    push_decimal(value.len() as u64, out);
    out.push(58u8);
    let mut i: usize = 0;
    let ghost mid = out@;
    while i < value.len()
        invariant
            0 <= i <= value@.len(),
            out@ == mid + value@.subrange(0, i as int),
        decreases value@.len() - i,
    {
        out.push(value[i]);
        i += 1;
        assert(out@ =~= mid + value@.subrange(0, i as int));
    }
    assert(value@.subrange(0, value@.len() as int) =~= value@);
    assert(final(out)@ =~= old(out)@ + decimal(value@.len()).push(58u8) + value@);
}

fn hash_bytes(bytes: &Vec<u8>) -> (r: u64)
    ensures
        r == DefaultHasher::spec_finish(seq![bytes@]),
{
    let mut hasher = DefaultHasher::new();
    hasher.write(bytes.as_slice());
    assert(hasher@ =~= seq![bytes@]);
    hasher.finish()
}

fn excluded_contains(excluded: &Vec<String>, name: &String) -> (r: bool)
    ensures
        r == is_excluded(name@, excluded@),
{
    let mut j: usize = 0;
    while j < excluded.len()
        invariant
            0 <= j <= excluded@.len(),
            forall|k: int| 0 <= k < j ==> (#[trigger] excluded@[k])@ != name@,
        decreases excluded@.len() - j,
    {
        if excluded[j] == *name {
            return true;
        }
        j += 1;
    }
    false
}

impl Fingerprint {
    /// Hashes the arguments not named in `excluded`, in order, into
    /// `args_hash`, and `code_version` alone into `code_hash`. Equal inputs
    /// give equal fingerprints.
    pub fn compute(args: &Vec<Arg>, code_version: &Vec<u8>, excluded: &Vec<String>) -> (r:
        Fingerprint)
        ensures
            r.args_hash == hash_of(selected(args@, excluded@)),
            r.code_hash == hash_of(seq![code_version@]),
    {
        let mut buf: Vec<u8> = Vec::new();
        let mut i: usize = 0;
        while i < args.len()
            invariant
                0 <= i <= args@.len(),
                buf@ == encode_values(selected(args@.subrange(0, i as int), excluded@)),
            decreases args@.len() - i,
        {
            let ghost prefix = args@.subrange(0, i as int);
            let ghost next = args@.subrange(0, i + 1);
            assert(next.drop_last() =~= prefix);
            if !excluded_contains(excluded, &args[i].name) {
                push_frame(&mut buf, &args[i].value);
                assert(selected(next, excluded@) == selected(prefix, excluded@).push(
                    args@[i as int].value@,
                ));
                assert(selected(next, excluded@).drop_last() =~= selected(prefix, excluded@));
            }
            i += 1;
        }
        assert(args@.subrange(0, args@.len() as int) =~= args@);
        let args_hash = hash_bytes(&buf);
        let mut code: Vec<u8> = Vec::new();
        push_frame(&mut code, code_version);
        let ghost one = seq![code_version@];
        assert(one.drop_last() =~= Seq::<Seq<u8>>::empty());
        assert(one.last() == code_version@);
        assert(encode_values(one.drop_last()) == Seq::<u8>::empty());
        assert(encode_values(one) == Seq::<u8>::empty() + decimal(code_version@.len()).push(58u8)
            + code_version@);
        assert(code@ =~= encode_values(seq![code_version@]));
        let code_hash = hash_bytes(&code);
        Fingerprint { args_hash, code_hash }
    }
}

} // verus!
