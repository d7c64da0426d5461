//! Turning raw bytes into `String`s the way the file formats store them.
use vstd::prelude::*;
use vstd::utf8::*;

verus! {

/// What `String::from_utf8_lossy` makes of a byte sequence.
pub uninterp spec fn utf8_lossy(bytes: Seq<u8>) -> Seq<char>;

/// Calls `String::from_utf8_lossy`. Claimed: the result is a function of the bytes
/// alone (named `utf8_lossy`), and on valid UTF-8 it is exactly the decoded text, as
/// the standard library documents. What replacement characters are inserted for
/// invalid input is left unsaid.
#[verifier::external_body]
pub(crate) fn string_from_utf8_lossy(bytes: &[u8]) -> (s: String)
    ensures
        s@ == utf8_lossy(bytes@),
        valid_utf8(bytes@) ==> s@ == decode_utf8(bytes@),
{
    String::from_utf8_lossy(bytes).into_owned()
}

/// The UTF-8 bytes of a string.
pub fn string_bytes(s: &String) -> (b: &[u8])
    ensures
        b@ == encode_utf8(s@),
{
    s.as_str().as_bytes()
}

/// Whether `s` starts with the bytes `prefix`.
pub open spec fn seq_starts_with(s: Seq<u8>, prefix: Seq<u8>) -> bool {
    prefix.len() <= s.len() && s.subrange(0, prefix.len() as int) == prefix
}

pub fn bytes_start_with(s: &[u8], prefix: &[u8]) -> (r: bool)
    ensures
        r == seq_starts_with(s@, prefix@),
{
    if prefix.len() > s.len() {
        return false;
    }
    let mut i: usize = 0;
    while i < prefix.len()
        invariant
            i <= prefix@.len() <= s@.len(),
            forall|k: int| 0 <= k < i ==> s@[k] == prefix@[k],
        decreases prefix.len() - i,
    {
        if s[i] != prefix[i] {
            assert(s@.subrange(0, prefix@.len() as int)[i as int] != prefix@[i as int]);
            return false;
        }
        i = i + 1;
    }
    assert(s@.subrange(0, prefix@.len() as int) =~= prefix@);
    true
}

/// Byte-wise equality of two slices.
pub fn bytes_eq(a: &[u8], b: &[u8]) -> (r: bool)
    ensures
        r == (a@ == b@),
{
    if a.len() != b.len() {
        return false;
    }
    let mut i: usize = 0;
    while i < a.len()
        invariant
            i <= a@.len() == b@.len(),
            forall|k: int| 0 <= k < i ==> a@[k] == b@[k],
        decreases a.len() - i,
    {
        if a[i] != b[i] {
            return false;
        }
        i = i + 1;
    }
    assert(a@ =~= b@);
    true
}


/// The non-empty pieces of `b` between `/` bytes, appended to `acc`, with `cur` the
/// piece being gathered.
pub open spec fn split_segments(b: Seq<u8>, cur: Seq<u8>, acc: Seq<Seq<u8>>) -> Seq<Seq<u8>>
    decreases b.len(),
{
    if b.len() == 0 {
        if cur.len() > 0 {
            acc.push(cur)
        } else {
            acc
        }
    } else if b[0] == 47 {
        split_segments(b.drop_first(), seq![], if cur.len() > 0 {
            acc.push(cur)
        } else {
            acc
        })
    } else {
        split_segments(b.drop_first(), cur.push(b[0]), acc)
    }
}

/// The non-empty pieces of `p` between `/` characters, appended to `acc`, with `cur`
/// the piece being gathered.
pub open spec fn split_chars(p: Seq<char>, cur: Seq<char>, acc: Seq<Seq<char>>) -> Seq<Seq<char>>
    decreases p.len(),
{
    if p.len() == 0 {
        if cur.len() > 0 {
            acc.push(cur)
        } else {
            acc
        }
    } else if p[0] == '/' {
        split_chars(p.drop_first(), seq![], if cur.len() > 0 {
            acc.push(cur)
        } else {
            acc
        })
    } else {
        split_chars(p.drop_first(), cur.push(p[0]), acc)
    }
}

/// The components of a `/`-separated path, empty ones dropped.
pub open spec fn path_components(path: Seq<char>) -> Seq<Seq<char>> {
    split_chars(path, seq![], seq![])
}

pub open spec fn encode_all(v: Seq<Seq<char>>) -> Seq<Seq<u8>> {
    v.map_values(|s: Seq<char>| encode_utf8(s))
}

/// No byte of the encoding of a character other than `/` is the byte of `/`.
proof fn lemma_scalar_no_slash(c: char)
    requires
        c != '/',
    ensures
        encode_scalar(c as u32).len() > 0,
        forall|i: int| 0 <= i < encode_scalar(c as u32).len() ==> #[trigger] encode_scalar(c as u32)[i] != 47,
{
    char_is_scalar(c);
    let v = c as u32;
    assert(v != 47) by {
        char_u32_cast(c, v);
        if v == 47 {
            assert(('/' as u32) == 47);
            char_u32_cast('/', 47);
        }
    }
    assert(forall|y: u8| #![auto] (0x80u8 | y) != 47u8) by (bit_vector);
    assert(forall|y: u8| #![auto] (0xC0u8 | y) != 47u8) by (bit_vector);
    assert(forall|y: u8| #![auto] (0xE0u8 | y) != 47u8) by (bit_vector);
    assert(forall|y: u8| #![auto] (0xF0u8 | y) != 47u8) by (bit_vector);
    if has_width_1_encoding(v) {
        assert(v <= 0x7F && v != 47 ==> ((v & 0x7F) as u8) != 47u8) by (bit_vector);
    }
}

proof fn lemma_slash_encoding()
    ensures
        encode_scalar('/' as u32) == seq![47u8],
{
    let v = '/' as u32;
    assert(v == 47);
    assert((47u32 & 0x7F) as u8 == 47u8) by (bit_vector);
    assert(encode_scalar(v) =~= seq![47u8]);
}

/// Bytes without `/` join the piece being gathered.
proof fn lemma_split_no_slash(bs: Seq<u8>, rest: Seq<u8>, cur: Seq<u8>, acc: Seq<Seq<u8>>)
    requires
        forall|i: int| 0 <= i < bs.len() ==> #[trigger] bs[i] != 47,
    ensures
        split_segments(bs + rest, cur, acc) == split_segments(rest, cur + bs, acc),
    decreases bs.len(),
{
    if bs.len() == 0 {
        assert(bs + rest =~= rest);
        assert(cur + bs =~= cur);
    } else {
        assert((bs + rest)[0] == bs[0]);
        assert((bs + rest).drop_first() =~= bs.drop_first() + rest);
        lemma_split_no_slash(bs.drop_first(), rest, cur.push(bs[0]), acc);
        assert(cur.push(bs[0]) + bs.drop_first() =~= cur + bs);
    }
}

proof fn lemma_encode_push(cur: Seq<char>, c: char)
    ensures
        encode_utf8(cur.push(c)) == encode_utf8(cur) + encode_scalar(c as u32),
    decreases cur.len(),
{
    if cur.len() == 0 {
        assert(cur.push(c).drop_first() =~= Seq::<char>::empty());
        assert(cur.push(c)[0] == c);
        assert(encode_utf8(Seq::<char>::empty()) == Seq::<u8>::empty());
        assert(encode_utf8(cur.push(c)) == encode_scalar(c as u32) + encode_utf8(Seq::<char>::empty()));
        assert(encode_utf8(cur.push(c)) =~= encode_scalar(c as u32));
        assert(encode_utf8(cur) + encode_scalar(c as u32) =~= encode_scalar(c as u32));
    } else {
        assert(cur.push(c).drop_first() =~= cur.drop_first().push(c));
        lemma_encode_push(cur.drop_first(), c);
        assert(encode_utf8(cur.push(c)) =~= encode_utf8(cur) + encode_scalar(c as u32));
    }
}

proof fn lemma_encode_empty(cur: Seq<char>)
    ensures
        (encode_utf8(cur).len() > 0) == (cur.len() > 0),
{
    if cur.len() > 0 {
        char_is_scalar(cur[0]);
    }
}

/// Splitting the encoding of a path at `/` bytes gives the encodings of its pieces.
proof fn lemma_split_encoded(p: Seq<char>, cur: Seq<char>, acc: Seq<Seq<char>>)
    ensures
        split_segments(encode_utf8(p), encode_utf8(cur), encode_all(acc)) == encode_all(split_chars(p, cur, acc)),
    decreases p.len(),
{
    lemma_encode_empty(cur);
    assert(encode_all(acc.push(cur)) =~= encode_all(acc).push(encode_utf8(cur)));
    if p.len() > 0 {
        let rest = p.drop_first();
        if p[0] == '/' {
            lemma_slash_encoding();
            assert(encode_utf8(p) =~= seq![47u8] + encode_utf8(rest));
            assert(encode_utf8(p).drop_first() =~= encode_utf8(rest));
            assert(encode_utf8(Seq::<char>::empty()) =~= Seq::<u8>::empty());
            lemma_split_encoded(rest, seq![], if cur.len() > 0 {
                acc.push(cur)
            } else {
                acc
            });
        } else {
            lemma_scalar_no_slash(p[0]);
            let bs = encode_scalar(p[0] as u32);
            assert(encode_utf8(p) == bs + encode_utf8(rest));
            lemma_split_no_slash(bs, encode_utf8(rest), encode_utf8(cur), encode_all(acc));
            lemma_encode_push(cur, p[0]);
            assert(encode_utf8(p)[0] == bs[0]);
            lemma_split_encoded(rest, cur.push(p[0]), acc);
        }
    }
}

pub open spec fn strings_view(v: Seq<String>) -> Seq<Seq<char>> {
    v.map_values(|s: String| s@)
}

/// Splits a path at `/`, dropping empty components.
pub fn split_path(path: &str) -> (r: Vec<String>)
    ensures
        strings_view(r@) == path_components(path@),
{
    let b = path.as_bytes();
    let ghost all = encode_utf8(path@);
    let mut out: Vec<String> = Vec::new();
    let mut cur: Vec<u8> = Vec::new();
    let ghost mut acc: Seq<Seq<u8>> = seq![];
    let mut i: usize = 0;
    assert(all.skip(0) =~= all);
    assert(cur@ =~= seq![]);
    while i < b.len()
        invariant
            b@ == all,
            i <= b@.len(),
            split_segments(all, seq![], seq![]) == split_segments(all.skip(i as int), cur@, acc),
            out@.len() == acc.len(),
            forall|k: int|
                0 <= k < acc.len() ==> valid_utf8(#[trigger] acc[k]) ==> out@[k]@ == decode_utf8(acc[k]),
        decreases b.len() - i,
    {
        assert(all.skip(i as int).drop_first() =~= all.skip(i + 1));
        if b[i] == 47 {
            if cur.len() > 0 {
                out.push(string_from_utf8_lossy(cur.as_slice()));
                proof {
                    acc = acc.push(cur@);
                }
            }
            cur = Vec::new();
            assert(cur@ =~= seq![]);
        } else {
            cur.push(b[i]);
        }
        i = i + 1;
    }
    assert(all.skip(i as int) =~= seq![]);
    if cur.len() > 0 {
        out.push(string_from_utf8_lossy(cur.as_slice()));
        proof {
            acc = acc.push(cur@);
        }
    }
    proof {
        let pieces = path_components(path@);
        lemma_split_encoded(path@, seq![], seq![]);
        assert(encode_utf8(Seq::<char>::empty()) =~= Seq::<u8>::empty());
        assert(encode_all(Seq::<Seq<char>>::empty()) =~= Seq::<Seq<u8>>::empty());
        assert(acc == encode_all(pieces));
        assert forall|k: int| 0 <= k < pieces.len() implies out@[k]@ == pieces[k] by {
            encode_utf8_valid_utf8(pieces[k]);
            encode_utf8_decode_utf8(pieces[k]);
            assert(acc[k] == encode_utf8(pieces[k]));
        }
        assert(strings_view(out@) =~= pieces);
    }
    out
}

/// The value of a run of decimal digits.
pub open spec fn digits_value(b: Seq<u8>) -> int
    decreases b.len(),
{
    if b.len() == 0 {
        0
    } else {
        digits_value(b.drop_last()) * 10 + (b.last() - 48)
    }
}

pub open spec fn all_digits(b: Seq<u8>) -> bool {
    forall|i: int| 0 <= i < b.len() ==> 48 <= #[trigger] b[i] <= 57
}

/// What `str::parse::<i32>` gives for these bytes: an optional sign, then at least
/// one decimal digit and nothing else, within the range of `i32`.
pub open spec fn spec_parse_i32(b: Seq<u8>) -> Option<i32> {
    if b.len() == 0 {
        None
    } else {
        let neg = b[0] == 45;
        let ds = if b[0] == 45 || b[0] == 43 {
            b.drop_first()
        } else {
            b
        };
        if ds.len() == 0 || !all_digits(ds) {
            None
        } else {
            let v = if neg {
                -digits_value(ds)
            } else {
                digits_value(ds)
            };
            if i32::MIN <= v <= i32::MAX {
                Some(v as i32)
            } else {
                None
            }
        }
    }
}

proof fn lemma_digits_value_mono(b: Seq<u8>, k: int)
    requires
        0 <= k <= b.len(),
        all_digits(b),
    ensures
        digits_value(b.take(k)) <= digits_value(b),
        0 <= digits_value(b.take(k)),
    decreases b.len() - k,
{
    if k < b.len() {
        lemma_digits_value_mono(b, k + 1);
        assert(b.take(k + 1).drop_last() =~= b.take(k));
        assert(b.take(k + 1).last() == b[k]);
    } else {
        assert(b.take(k) =~= b);
    }
    lemma_digits_nonneg(b.take(k));
}

proof fn lemma_digits_nonneg(b: Seq<u8>)
    requires
        all_digits(b),
    ensures
        0 <= digits_value(b),
    decreases b.len(),
{
    if b.len() > 0 {
        assert(all_digits(b.drop_last()));
        lemma_digits_nonneg(b.drop_last());
    }
}

/// Parses a decimal `i32` the way `str::parse::<i32>` does.
#[verifier::loop_isolation(false)]
pub fn parse_i32(s: &String) -> (r: Option<i32>)
    ensures
        r == spec_parse_i32(encode_utf8(s@)),
{
    let b = string_bytes(s);
    let ghost bs = b@;
    if b.len() == 0 {
        return None;
    }
    let neg = b[0] == 45;
    let start: usize = if b[0] == 45 || b[0] == 43 {
        1
    } else {
        0
    };
    let ghost ds = if b@[0] == 45 || b@[0] == 43 {
        bs.drop_first()
    } else {
        bs
    };
    assert(ds =~= bs.skip(start as int));
    if start >= b.len() {
        return None;
    }
    let mut acc: i64 = 0;
    let mut i = start;
    while i < b.len()
        invariant
            bs == b@,
            start <= i <= b@.len(),
            ds == bs.skip(start as int),
            all_digits(ds.take(i - start)),
            acc == digits_value(ds.take(i - start)),
            0 <= acc <= 0x8000_0000,
        decreases b.len() - i,
    {
        let c = b[i];
        if c < 48 || c > 57 {
            assert(ds[i - start] == c);
            return None;
        }
        proof {
            assert(ds.take(i - start + 1).drop_last() =~= ds.take(i - start));
            assert(ds.take(i - start + 1).last() == c);
            assert(all_digits(ds.take(i - start + 1)));
        }
        acc = acc * 10 + (c - 48) as i64;
        i = i + 1;
        if acc > 0x8000_0000 {
            proof {
                let k = i - start;
                if all_digits(ds) {
                    lemma_digits_value_mono(ds, k as int);
                }
            }
            return None;
        }
    }
    assert(ds.take(i - start) =~= ds);
    if neg {
        Some((0 - acc) as i32)
    } else if acc > 0x7fff_ffff {
        None
    } else {
        Some(acc as i32)
    }
}


/// The decimal digit character for `d`.
pub open spec fn digit_char(d: nat) -> char {
    ((d % 10) + 48) as char
}

/// The decimal representation of `n`, without leading zeros.
pub open spec fn decimal(n: nat) -> Seq<char>
    decreases n,
{
    if n < 10 {
        seq![digit_char(n)]
    } else {
        decimal(n / 10).push(digit_char(n % 10))
    }
}

fn digit_str(d: u32) -> (r: &'static str)
    requires
        d < 10,
    ensures
        r@ == seq![digit_char(d as nat)],
{
    proof {
        reveal_strlit("0");
        reveal_strlit("1");
        reveal_strlit("2");
        reveal_strlit("3");
        reveal_strlit("4");
        reveal_strlit("5");
        reveal_strlit("6");
        reveal_strlit("7");
        reveal_strlit("8");
        reveal_strlit("9");
    }
    match d {
        0 => "0",
        1 => "1",
        2 => "2",
        3 => "3",
        4 => "4",
        5 => "5",
        6 => "6",
        7 => "7",
        8 => "8",
        _ => "9",
    }
}

/// Formats `n` in decimal, as `n.to_string()` does.
pub fn decimal_string(n: u32) -> (r: String)
    ensures
        r@ == decimal(n as nat),
    decreases n,
{
    if n < 10 {
        digit_str(n).to_owned()
    } else {
        let mut s = decimal_string(n / 10);
        s.append(digit_str(n % 10));
        s
    }
}


/// What `str::parse::<u32>` gives for these bytes: an optional `+`, then at least one
/// decimal digit and nothing else, within the range of `u32`.
pub open spec fn spec_parse_u32(b: Seq<u8>) -> Option<u32> {
    if b.len() == 0 {
        None
    } else {
        let ds = if b[0] == 43 {
            b.drop_first()
        } else {
            b
        };
        if ds.len() == 0 || !all_digits(ds) || digits_value(ds) > u32::MAX {
            None
        } else {
            Some(digits_value(ds) as u32)
        }
    }
}

/// Parses a decimal `u32` the way `str::parse::<u32>` does.
#[verifier::loop_isolation(false)]
pub fn parse_u32(s: &String) -> (r: Option<u32>)
    ensures
        r == spec_parse_u32(encode_utf8(s@)),
{
    let b = string_bytes(s);
    let ghost bs = b@;
    if b.len() == 0 {
        return None;
    }
    let start: usize = if b[0] == 43 {
        1
    } else {
        0
    };
    let ghost ds = if bs[0] == 43 {
        bs.drop_first()
    } else {
        bs
    };
    assert(ds =~= bs.skip(start as int));
    if start >= b.len() {
        return None;
    }
    let mut acc: u64 = 0;
    let mut i = start;
    while i < b.len()
        invariant
            bs == b@,
            start <= i <= b@.len(),
            ds == bs.skip(start as int),
            all_digits(ds.take(i - start)),
            acc == digits_value(ds.take(i - start)),
            0 <= acc <= 0xffff_ffff,
        decreases b.len() - i,
    {
        let c = b[i];
        if c < 48 || c > 57 {
            assert(ds[i - start] == c);
            return None;
        }
        proof {
            assert(ds.take(i - start + 1).drop_last() =~= ds.take(i - start));
            assert(ds.take(i - start + 1).last() == c);
            assert(all_digits(ds.take(i - start + 1)));
        }
        acc = acc * 10 + (c - 48) as u64;
        i = i + 1;
        if acc > 0xffff_ffff {
            proof {
                let k = i - start;
                if all_digits(ds) {
                    lemma_digits_value_mono(ds, k as int);
                }
            }
            return None;
        }
    }
    assert(ds.take(i - start) =~= ds);
    Some(acc as u32)
}


/// The bytes of the decimal representation of `n`.
pub open spec fn decimal_bytes(n: nat) -> Seq<u8>
    decreases n,
{
    if n < 10 {
        seq![(n + 48) as u8]
    } else {
        decimal_bytes(n / 10).push(((n % 10) + 48) as u8)
    }
}

proof fn lemma_decimal_bytes(n: nat)
    ensures
        decimal(n).len() == decimal_bytes(n).len(),
        forall|i: int| 0 <= i < decimal(n).len() ==> (#[trigger] decimal(n)[i]) as u8 == decimal_bytes(n)[i]
            && '\0' <= decimal(n)[i] <= '\u{7f}',
        decimal_bytes(n).len() > 0,
        all_digits(decimal_bytes(n)),
        digits_value(decimal_bytes(n)) == n,
    decreases n,
{
    if n < 10 {
        assert(((n + 48) as char) as u8 == (n + 48) as u8);
        let b = decimal_bytes(n);
        assert(b.drop_last() =~= Seq::<u8>::empty());
        assert(digits_value(b.drop_last()) == 0);
    } else {
        lemma_decimal_bytes(n / 10);
        let k = n % 10;
        assert(((k + 48) as char) as u8 == (k + 48) as u8);
        let d = decimal(n);
        let b = decimal_bytes(n);
        assert(d == decimal(n / 10).push(digit_char(k)));
        assert(b == decimal_bytes(n / 10).push((k + 48) as u8));
        assert forall|i: int| 0 <= i < d.len() implies (#[trigger] d[i]) as u8 == b[i] && '\0' <= d[i] <= '\u{7f}' by {
            if i < d.len() - 1 {
                assert(d[i] == decimal(n / 10)[i]);
                assert(b[i] == decimal_bytes(n / 10)[i]);
            }
        }
        assert(b.drop_last() =~= decimal_bytes(n / 10));
        vstd::arithmetic::div_mod::lemma_fundamental_div_mod(n as int, 10);
        assert(b.last() == (k + 48) as u8);
        assert(digits_value(b.drop_last()) == n / 10);
        assert(digits_value(b) == digits_value(b.drop_last()) * 10 + (b.last() - 48));
    }
}

proof fn lemma_decimal_encoding(n: nat)
    ensures
        encode_utf8(decimal(n)) == decimal_bytes(n),
        decimal_bytes(n).len() > 0,
        all_digits(decimal_bytes(n)),
        digits_value(decimal_bytes(n)) == n,
{
    lemma_decimal_bytes(n);
    let d = decimal(n);
    assert(is_ascii_chars(d));
    is_ascii_chars_encode_utf8(d);
    assert(encode_utf8(d) =~= decimal_bytes(n));
}

/// The decimal representation of a number from 0 to `i32::MAX` is read back as that
/// number, as the path component that names a list item is.
pub proof fn lemma_decimal_parse(n: nat)
    requires
        n <= i32::MAX,
    ensures
        spec_parse_i32(encode_utf8(decimal(n))) == Some(n as i32),
{
    lemma_decimal_encoding(n);
    let b = decimal_bytes(n);
    assert(48 <= b[0] <= 57);
}

} // verus!
