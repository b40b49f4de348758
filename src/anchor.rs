//! The anchor identifier scheme shared by the markdown transform and the
//! table of contents.
use vstd::prelude::*;
use vstd::utf8::encode_utf8;
use std::collections::hash_map::DefaultHasher;
use std::hash::Hasher;
use vstd::std_specs::hash::DefaultHasherAdditionalSpecFns;
use crate::text::{decimal, decimal_string};

verus! {

/// The hash of a text: std's `DefaultHasher` (fixed keys, never seeded per
/// process) fed the text's UTF-8 bytes followed by the terminator byte 0xff,
/// as `str`'s `Hash` impl does.
pub open spec fn text_hash(t: Seq<char>) -> u64 {
    DefaultHasher::spec_finish(seq![encode_utf8(t), seq![0xffu8]])
}

/// The identifier of a text: the decimal digits of its hash.
/// Distinct texts may share an identifier; no attempt is made to tell them apart.
pub open spec fn identifier(t: Seq<char>) -> Seq<char> {
    decimal(text_hash(t) as nat)
}

/// The identifier of `text`, the same for the same text in every call and process.
pub fn identifier_for(text: &str) -> (r: String)
    ensures
        r@ == identifier(text@),
{
    let mut h = DefaultHasher::new();
    h.write(text.as_bytes());
    let end: [u8; 1] = [0xffu8];
    h.write(end.as_slice());
    let n = h.finish();
    proof {
        assert(end@ =~= seq![0xffu8]);
        assert(h@ =~= seq![encode_utf8(text@), seq![0xffu8]]);
    }
    decimal_string(n)
}

/// Two texts with the same characters have the same identifier.
pub proof fn lemma_identifier_deterministic(a: Seq<char>, b: Seq<char>)
    requires
        a == b,
    ensures
        identifier(a) == identifier(b),
{
}

} // verus!
