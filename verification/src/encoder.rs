//! The command encoder: assembles the line that carries a command to the
//! modem.
//!
//! A command line is the prefix `AT`, the mnemonic of the operation, for
//! commands with arguments an equals sign and the arguments, and the line
//! terminator. A query is the command whose only argument is a question mark.
use vstd::prelude::*;
use vstd::string::StringSliceAdditionalSpecFns;
use crate::wire::{append, crlf};

verus! {

/// The separator that the general serialisation puts between arguments.
pub const COMMA: u8 = 0x2C;

/// The separator that the modem wants between the arguments of some commands.
pub const COLON: u8 = 0x3A;

/// What every command line begins with.
pub open spec fn prefix() -> Seq<u8> {
    "AT".spec_bytes()
}

/// The line of a command without arguments.
pub open spec fn plain_line(mnemonic: Seq<u8>) -> Seq<u8> {
    prefix() + mnemonic + crlf()
}

/// The line of a command with arguments.
pub open spec fn set_line(mnemonic: Seq<u8>, args: Seq<u8>) -> Seq<u8> {
    prefix() + mnemonic + "=".spec_bytes() + args + crlf()
}

/// The line of a query.
pub open spec fn query_line(mnemonic: Seq<u8>) -> Seq<u8> {
    set_line(mnemonic, "?".spec_bytes())
}

/// `s` with every byte `from` replaced by `to`.
pub open spec fn substituted(s: Seq<u8>, from: u8, to: u8) -> Seq<u8> {
    Seq::new(
        s.len(),
        |i: int|
            if s[i] == from {
                to
            } else {
                s[i]
            },
    )
}

/// Encodes a command without arguments.
pub fn encode_plain(mnemonic: &str) -> (line: Vec<u8>)
    ensures
        line@ == plain_line(mnemonic.spec_bytes()),
        line@.len() == mnemonic.spec_bytes().len() + 4,
{
    proof {
        lemma_line_len(mnemonic.spec_bytes(), Seq::empty());
    }
    let mut line: Vec<u8> = Vec::new();
    append(&mut line, "AT".as_bytes());
    append(&mut line, mnemonic.as_bytes());
    append(&mut line, "\r\n".as_bytes());
    line
}

/// Encodes a command with arguments.
pub fn encode_set(mnemonic: &str, args: &[u8]) -> (line: Vec<u8>)
    ensures
        line@ == set_line(mnemonic.spec_bytes(), args@),
        line@.len() == mnemonic.spec_bytes().len() + args@.len() + 5,
{
    proof {
        lemma_line_len(mnemonic.spec_bytes(), args@);
    }
    let mut line: Vec<u8> = Vec::new();
    append(&mut line, "AT".as_bytes());
    append(&mut line, mnemonic.as_bytes());
    append(&mut line, "=".as_bytes());
    append(&mut line, args);
    append(&mut line, "\r\n".as_bytes());
    line
}

/// Encodes a query.
pub fn encode_query(mnemonic: &str) -> (line: Vec<u8>)
    ensures
        line@ == query_line(mnemonic.spec_bytes()),
        line@.len() == mnemonic.spec_bytes().len() + 6,
{
    proof {
        lemma_line_len(mnemonic.spec_bytes(), Seq::empty());
    }
    encode_set(mnemonic, "?".as_bytes())
}

/// Replaces every byte `from` in `buf` by `to`, in place.
pub fn substitute(buf: &mut Vec<u8>, from: u8, to: u8)
    ensures
        final(buf)@ == substituted(old(buf)@, from, to),
{
    let mut i: usize = 0;
    while i < buf.len()
        invariant
            i <= buf@.len(),
            buf@.len() == old(buf)@.len(),
            forall|j: int| 0 <= j < i ==> buf@[j] == substituted(old(buf)@, from, to)[j],
            forall|j: int| i <= j < buf@.len() ==> buf@[j] == old(buf)@[j],
        decreases buf@.len() - i,
    {
        if buf[i] == from {
            buf.set(i, to);
        }
        i = i + 1;
    }
    assert(buf@ =~= substituted(old(buf)@, from, to));
}

/// The length of a command line is the length of its parts.
pub proof fn lemma_line_len(mnemonic: Seq<u8>, args: Seq<u8>)
    ensures
        plain_line(mnemonic).len() == mnemonic.len() + 4,
        set_line(mnemonic, args).len() == mnemonic.len() + args.len() + 5,
        query_line(mnemonic).len() == mnemonic.len() + 6,
{
    crate::wire::lemma_crlf();
    reveal_strlit("AT");
    reveal_strlit("=");
    reveal_strlit("?");
    vstd::string::is_ascii_spec_bytes("AT");
    vstd::string::is_ascii_spec_bytes("=");
    vstd::string::is_ascii_spec_bytes("?");
}

} // verus!
