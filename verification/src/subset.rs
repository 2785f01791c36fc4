//! Font-subset support logic: the SSA-style embedded-data text encoding.
//!
//! Subtitle scripts embed binary data (subset fonts, images) as text: each
//! group of three bytes becomes four characters in the range `!`..=`` ` ``
//! (six bits plus 33), a final group of one or two bytes becomes two or
//! three characters, and a newline is inserted after every 80 output
//! characters.  The font parsing and subsetting itself is the host's
//! business; only the encoding is computed here.

use vstd::prelude::*;

verus! {

/// Relies on `String::push`: appends the given `char` to the end of the
/// string.
pub assume_specification[ String::push ](s: &mut String, ch: char)
    ensures
        final(s)@ == old(s)@.push(ch),
;

/// What a font subset run reports to the host.
pub struct SubsetResult {
    pub encoded: String,
    pub byte_size: usize,
    pub n_glyphs: usize,
    pub missing: String,
    pub extension: String,
}

/// The four six-bit groups of one three-byte chunk.
pub open spec fn chunk6(b0: u8, b1: u8, b2: u8) -> Seq<u8> {
    let n = (b0 as int) * 65536 + (b1 as int) * 256 + (b2 as int);
    seq![
        (n / 262144 % 64) as u8,
        (n / 4096 % 64) as u8,
        (n / 64 % 64) as u8,
        (n % 64) as u8,
    ]
}

/// The six-bit groups of the input: three bytes yield four groups; a
/// trailing single byte, shifted into the top of a 16-bit window, yields
/// two; a trailing pair yields three.
pub open spec fn sixbits(s: Seq<u8>) -> Seq<u8>
    decreases s.len(),
{
    if s.len() == 0 {
        Seq::empty()
    } else if s.len() == 1 {
        let v = (s[0] as int) * 256;
        seq![(v / 1024 % 64) as u8, (v / 16 % 64) as u8]
    } else if s.len() == 2 {
        let a = (s[0] as int) * 65536 + (s[1] as int) * 256;
        seq![(a / 262144 % 64) as u8, (a / 4096 % 64) as u8, (a / 64 % 64) as u8]
    } else {
        chunk6(s[0], s[1], s[2]) + sixbits(s.skip(3))
    }
}

/// The character a six-bit group encodes as.
pub open spec fn enc_char(v: u8) -> char {
    ((v + 33) as u8) as char
}

/// One emitted group at the given column: the character, followed by a
/// newline when it lands on the 80th column.
pub open spec fn wrap1(v: u8, col: int) -> Seq<char> {
    if col + 1 == 80 {
        seq![enc_char(v), '\n']
    } else {
        seq![enc_char(v)]
    }
}

/// The column after one emitted group.
pub open spec fn next_col(col: int) -> int {
    if col + 1 == 80 {
        0
    } else {
        col + 1
    }
}

/// Groups emitted from the given column on, wrapping every 80 characters.
pub open spec fn wrap(cs: Seq<u8>, col: int) -> Seq<char>
    decreases cs.len(),
{
    if cs.len() == 0 {
        Seq::empty()
    } else {
        wrap1(cs[0], col) + wrap(cs.skip(1), next_col(col))
    }
}

/// The column after emitting all the groups.
pub open spec fn wrap_col(cs: Seq<u8>, col: int) -> int
    decreases cs.len(),
{
    if cs.len() == 0 {
        col
    } else {
        wrap_col(cs.skip(1), next_col(col))
    }
}

/// The whole encoding of a byte sequence.
pub open spec fn ssa_spec(input: Seq<u8>) -> Seq<char> {
    wrap(sixbits(input), 0)
}

/// Emitting a concatenation emits the parts back to back, carrying the
/// column across.
proof fn lemma_wrap_concat(a: Seq<u8>, b: Seq<u8>, col: int)
    ensures
        wrap(a + b, col) =~= wrap(a, col) + wrap(b, wrap_col(a, col)),
        wrap_col(a + b, col) == wrap_col(b, wrap_col(a, col)),
    decreases a.len(),
{
    if a.len() == 0 {
        assert(a + b =~= b);
    } else {
        assert((a + b)[0] == a[0]);
        assert((a + b).skip(1) =~= a.skip(1) + b);
        lemma_wrap_concat(a.skip(1), b, next_col(col));
    }
}

/// A whole-chunk prefix contributes its chunks' groups, in order.
proof fn lemma_sixbits_split(s: Seq<u8>, i: int)
    requires
        0 <= i <= s.len(),
        i % 3 == 0,
    ensures
        sixbits(s) =~= sixbits(s.take(i)) + sixbits(s.skip(i)),
    decreases i,
{
    if i == 0 {
        assert(s.take(0) =~= Seq::<u8>::empty());
        assert(s.skip(0) =~= s);
    } else {
        assert(i >= 3);
        assert(s.len() >= 3);
        assert(sixbits(s) =~= chunk6(s[0], s[1], s[2]) + sixbits(s.skip(3)));
        lemma_sixbits_split(s.skip(3), i - 3);
        assert(s.skip(3).take(i - 3) =~= s.take(i).skip(3));
        assert(s.skip(3).skip(i - 3) =~= s.skip(i));
        let t = s.take(i);
        assert(t.len() >= 3);
        assert(t[0] == s[0] && t[1] == s[1] && t[2] == s[2]);
        assert(sixbits(t) =~= chunk6(s[0], s[1], s[2]) + sixbits(t.skip(3)));
    }
}

/// Appends one encoded group, wrapping the line at 80 columns.
fn push_encoded(output: &mut String, col: &mut usize, v: u8)
    requires
        v < 64,
        *old(col) < 80,
    ensures
        final(output)@ =~= old(output)@ + wrap1(v, *old(col) as int),
        *final(col) == next_col(*old(col) as int),
        *final(col) < 80,
{
    let c: char = (v + 33) as char;
    output.push(c);
    let ghost c0 = *col;
    *col = *col + 1;
    if *col == 80 {
        output.push('\n');
        *col = 0;
    }
    proof {
        if c0 + 1 == 80 {
            assert(final(output)@ =~= old(output)@ + seq![enc_char(v), '\n']);
        } else {
            assert(final(output)@ =~= old(output)@ + seq![enc_char(v)]);
        }
    }
}

/// Appends a run of encoded groups, wrapping the line at 80 columns.
fn push_group(output: &mut String, col: &mut usize, vs: &[u8])
    requires
        forall|k: int| 0 <= k < vs@.len() ==> vs@[k] < 64,
        *old(col) < 80,
    ensures
        final(output)@ =~= old(output)@ + wrap(vs@, *old(col) as int),
        *final(col) == wrap_col(vs@, *old(col) as int),
        *final(col) < 80,
{
    let m: usize = vs.len();
    let mut j: usize = 0;
    let ghost col0 = *col as int;
    let ghost out0 = output@;
    proof {
        assert(vs@.subrange(0, 0) =~= Seq::<u8>::empty());
        assert(out0 =~= out0 + wrap(vs@.subrange(0, 0), col0));
    }
    while j < m
        invariant
            j <= m,
            m == vs@.len(),
            forall|k: int| 0 <= k < vs@.len() ==> vs@[k] < 64,
            *col < 80,
            output@ =~= out0 + wrap(vs@.subrange(0, j as int), col0),
            *col == wrap_col(vs@.subrange(0, j as int), col0),
        decreases m - j,
    {
        let ghost cj = *col as int;
        let v: u8 = vs[j];
        push_encoded(output, col, v);
        proof {
            let sub = vs@.subrange(0, j as int);
            let sub1 = vs@.subrange(0, j + 1);
            assert(sub1 =~= sub + seq![v]);
            lemma_wrap_concat(sub, seq![v], col0);
            assert(seq![v].skip(1) =~= Seq::<u8>::empty());
            assert(seq![v][0] == v);
            assert(wrap(seq![v].skip(1), next_col(cj)) =~= Seq::<char>::empty());
            assert(wrap(seq![v], cj) =~= wrap1(v, cj)
                + wrap(seq![v].skip(1), next_col(cj)));
            assert(wrap(seq![v], cj) =~= wrap1(v, cj));
            assert(wrap_col(seq![v].skip(1), next_col(cj)) == next_col(cj));
            assert(wrap_col(seq![v], cj) == next_col(cj));
            assert(output@ =~= out0 + wrap(sub1, col0));
        }
        j = j + 1;
    }
    proof {
        assert(vs@.subrange(0, m as int) =~= vs@);
    }
}

/// Encodes every whole three-byte chunk, returning how many bytes were
/// consumed.
#[verifier::loop_isolation(false)]
#[verifier::rlimit(100)]
fn encode_full_chunks(input: &[u8], output: &mut String, col: &mut usize) -> (i: usize)
    requires
        *old(col) < 80,
    ensures
        i <= input@.len(),
        input@.len() - i < 3,
        i % 3 == 0,
        final(output)@ =~= old(output)@
            + wrap(sixbits(input@.take(i as int)), *old(col) as int),
        *final(col) == wrap_col(sixbits(input@.take(i as int)), *old(col) as int),
        *final(col) < 80,
{
    let n: usize = input.len();
    let mut i: usize = 0;
    let ghost col0 = *col as int;
    let ghost out0 = output@;
    proof {
        assert(input@.take(0) =~= Seq::<u8>::empty());
        assert(out0 =~= out0 + wrap(sixbits(input@.take(0)), col0));
    }
    while n - i >= 3
        invariant
            i <= n,
            i % 3 == 0,
            *col < 80,
            output@ =~= out0 + wrap(sixbits(input@.take(i as int)), col0),
            *col == wrap_col(sixbits(input@.take(i as int)), col0),
        decreases n - i,
    {
        let b0: u8 = input[i];
        let b1: u8 = input[i + 1];
        let b2: u8 = input[i + 2];
        let nv: u32 = (b0 as u32) * 65536 + (b1 as u32) * 256 + (b2 as u32);
        let v0: u8 = (nv / 262144 % 64) as u8;
        let v1: u8 = (nv / 4096 % 64) as u8;
        let v2: u8 = (nv / 64 % 64) as u8;
        let v3: u8 = (nv % 64) as u8;
        let ghost pre6 = sixbits(input@.take(i as int));
        let arr: [u8; 4] = [v0, v1, v2, v3];
        proof {
            assert(arr@ =~= chunk6(b0, b1, b2));
        }
        push_group(output, col, arr.as_slice());
        proof {
            // take(i + 3) splits into take(i) plus this chunk
            lemma_sixbits_split(input@.take(i + 3), i as int);
            assert(input@.take(i + 3).take(i as int) =~= input@.take(i as int));
            let tail = input@.take(i + 3).skip(i as int);
            assert(tail.len() == 3);
            assert(tail[0] == b0 && tail[1] == b1 && tail[2] == b2);
            assert(tail.skip(3) =~= Seq::<u8>::empty());
            assert(sixbits(tail) =~= chunk6(b0, b1, b2));
            assert(sixbits(input@.take(i + 3)) =~= pre6 + chunk6(b0, b1, b2));
            lemma_wrap_concat(pre6, chunk6(b0, b1, b2), col0);
        }
        i = i + 3;
    }
    i
}

/// Encodes a byte run into the SSA-style embedded text format.
#[verifier::rlimit(100)]
pub fn ssa_encode(input: &[u8]) -> (r: String)
    ensures
        r@ =~= ssa_spec(input@),
{
    let n: usize = input.len();
    let mut output: String = String::new();
    let mut col: usize = 0;
    let i: usize = encode_full_chunks(input, &mut output, &mut col);
    let ghost pre6 = sixbits(input@.take(i as int));
    let ghost rest = input@.skip(i as int);
    proof {
        lemma_sixbits_split(input@, i as int);
    }
    let rem: usize = n - i;
    if rem == 1 {
        let b0: u8 = input[i];
        let val: u32 = (b0 as u32) * 256;
        let v0: u8 = (val / 1024 % 64) as u8;
        let v1: u8 = (val / 16 % 64) as u8;
        let arr: [u8; 2] = [v0, v1];
        proof {
            assert(rest.len() == 1 && rest[0] == b0);
            assert(arr@ =~= sixbits(rest));
            lemma_wrap_concat(pre6, sixbits(rest), 0);
        }
        push_group(&mut output, &mut col, arr.as_slice());
    } else if rem == 2 {
        let b0: u8 = input[i];
        let b1: u8 = input[i + 1];
        let aligned: u32 = (b0 as u32) * 65536 + (b1 as u32) * 256;
        let v0: u8 = (aligned / 262144 % 64) as u8;
        let v1: u8 = (aligned / 4096 % 64) as u8;
        let v2: u8 = (aligned / 64 % 64) as u8;
        let arr: [u8; 3] = [v0, v1, v2];
        proof {
            assert(rest.len() == 2 && rest[0] == b0 && rest[1] == b1);
            assert(arr@ =~= sixbits(rest));
            lemma_wrap_concat(pre6, sixbits(rest), 0);
        }
        push_group(&mut output, &mut col, arr.as_slice());
    } else {
        proof {
            assert(rest.len() == 0);
            assert(sixbits(rest) =~= Seq::<u8>::empty());
            assert(sixbits(input@) =~= pre6);
        }
    }
    output
}

} // verus!
