use vstd::prelude::*;
use vstd::string::*;

verus! {

// ---------- building strings ----------

/// Relies on std's String::push: appends one character at the end.
#[verifier::external_body]
pub fn push_char(s: &mut String, c: char)
    ensures
        final(s)@ == old(s)@ + seq![c],
{
    s.push(c);
}

// ---------- comparing strings ----------

/// Character-for-character equality of two string slices.
pub fn str_eq(a: &str, b: &str) -> (r: bool)
    ensures
        r == (a@ == b@),
{
    let alen = a.unicode_len();
    let blen = b.unicode_len();
    if alen != blen {
        return false;
    }
    let mut i: usize = 0;
    while i < alen
        invariant
            i <= alen,
            alen == a@.len(),
            alen == b@.len(),
            forall|j: int| 0 <= j < i ==> a@[j] == b@[j],
        decreases alen - i,
    {
        if a.get_char(i) != b.get_char(i) {
            return false;
        }
        i = i + 1;
    }
    proof {
        assert(a@ =~= b@);
    }
    true
}

/// Does `find` occur in `text` starting at character position `i`?
pub fn matches_at(text: &str, i: usize, find: &str) -> (r: bool)
    requires
        i + find@.len() <= text@.len(),
    ensures
        r == (text@.subrange(i as int, i + find@.len()) == find@),
{
    let flen = find.unicode_len();
    let tlen = text.unicode_len();
    let mut j: usize = 0;
    while j < flen
        invariant
            j <= flen,
            flen == find@.len(),
            tlen == text@.len(),
            i + flen <= tlen,
            forall|k: int| 0 <= k < j ==> text@[i + k] == find@[k],
        decreases flen - j,
    {
        if text.get_char(i + j) != find.get_char(j) {
            proof {
                assert(text@.subrange(i as int, i + find@.len())[j as int] != find@[j as int]);
            }
            return false;
        }
        j = j + 1;
    }
    proof {
        assert(text@.subrange(i as int, i + find@.len()) =~= find@);
    }
    true
}

/// Is `prefix` a prefix of `s`?
pub fn starts_with(s: &str, prefix: &str) -> (r: bool)
    ensures
        r == prefix@.is_prefix_of(s@),
{
    let plen = prefix.unicode_len();
    let slen = s.unicode_len();
    if plen > slen {
        return false;
    }
    let r = matches_at(s, 0, prefix);
    proof {
        assert(s@.subrange(0, prefix@.len() as int) == s@.take(prefix@.len() as int));
    }
    r
}

// ---------- literal replacement ----------

/// The text with every occurrence of `find` replaced by `rep`, scanning left
/// to right and never re-examining replaced output.  An empty `find` matches
/// at every character boundary, as std's str::replace does.
pub open spec fn lit_replaced(text: Seq<char>, find: Seq<char>, rep: Seq<char>) -> Seq<char>
    decreases text.len(),
{
    if find.len() == 0 {
        if text.len() == 0 {
            rep
        } else {
            rep + seq![text[0]] + lit_replaced(text.skip(1), find, rep)
        }
    } else if text.len() < find.len() {
        text
    } else if text.subrange(0, find.len() as int) == find {
        rep + lit_replaced(text.skip(find.len() as int), find, rep)
    } else {
        seq![text[0]] + lit_replaced(text.skip(1), find, rep)
    }
}

/// Literal, case-sensitive replacement of every occurrence of `find` by
/// `rep`, as `lit_replaced` describes.
pub fn replace_literal(text: &str, find: &str, rep: &str) -> (r: String)
    ensures
        r@ == lit_replaced(text@, find@, rep@),
{
    let tlen = text.unicode_len();
    let flen = find.unicode_len();
    let mut out = String::new();
    let mut i: usize = 0;
    proof {
        assert(text@.skip(0) =~= text@);
        assert(out@ + lit_replaced(text@, find@, rep@) =~= lit_replaced(text@, find@, rep@));
    }
    if flen == 0 {
        while i < tlen
            invariant
                i <= tlen,
                tlen == text@.len(),
                flen == find@.len(),
                flen == 0,
                out@ + lit_replaced(text@.skip(i as int), find@, rep@)
                    == lit_replaced(text@, find@, rep@),
            decreases tlen - i,
        {
            let ghost pre = out@;
            let ghost rest = text@.skip(i as int);
            out.append(rep);
            let c = text.get_char(i);
            push_char(&mut out, c);
            proof {
                assert(rest[0] == text@[i as int]);
                assert(rest.skip(1) =~= text@.skip(i + 1));
                assert(lit_replaced(rest, find@, rep@)
                    == rep@ + seq![rest[0]] + lit_replaced(rest.skip(1), find@, rep@));
                assert(out@ + lit_replaced(text@.skip(i + 1), find@, rep@)
                    =~= pre + lit_replaced(rest, find@, rep@));
            }
            i = i + 1;
        }
        out.append(rep);
        proof {
            assert(text@.skip(i as int) =~= Seq::<char>::empty());
            assert(lit_replaced(text@.skip(i as int), find@, rep@) == rep@);
        }
        return out;
    }
    while flen <= tlen - i && i < tlen
        invariant
            i <= tlen,
            tlen == text@.len(),
            flen == find@.len(),
            flen >= 1,
            out@ + lit_replaced(text@.skip(i as int), find@, rep@)
                == lit_replaced(text@, find@, rep@),
        decreases tlen - i,
    {
        let ghost pre = out@;
        let ghost rest = text@.skip(i as int);
        proof {
            assert(rest.len() == tlen - i >= flen);
            assert(rest.subrange(0, flen as int) =~= text@.subrange(i as int, i + flen));
        }
        if matches_at(text, i, find) {
            out.append(rep);
            proof {
                assert(rest.skip(flen as int) =~= text@.skip(i + flen));
                assert(lit_replaced(rest, find@, rep@)
                    == rep@ + lit_replaced(rest.skip(flen as int), find@, rep@));
                assert(out@ + lit_replaced(text@.skip(i + flen), find@, rep@)
                    =~= pre + lit_replaced(rest, find@, rep@));
            }
            i = i + flen;
        } else {
            let c = text.get_char(i);
            push_char(&mut out, c);
            proof {
                assert(rest[0] == text@[i as int]);
                assert(rest.skip(1) =~= text@.skip(i + 1));
                assert(lit_replaced(rest, find@, rep@)
                    == seq![rest[0]] + lit_replaced(rest.skip(1), find@, rep@));
                assert(out@ + lit_replaced(text@.skip(i + 1), find@, rep@)
                    =~= pre + lit_replaced(rest, find@, rep@));
            }
            i = i + 1;
        }
    }
    let tail = text.substring_char(i, tlen);
    out.append(tail);
    proof {
        let rest = text@.skip(i as int);
        assert(rest.len() < flen);
        assert(lit_replaced(rest, find@, rep@) == rest);
        assert(tail@ =~= rest);
    }
    out
}

// ---------- ASCII case ----------

/// ASCII lowercase of one character; anything outside 'A'..'Z' is unchanged.
pub open spec fn lower_char(c: char) -> char {
    if 'A' <= c && c <= 'Z' {
        (((c as u32) + 32) as u8) as char
    } else {
        c
    }
}

/// ASCII lowercase of a whole character sequence.
pub open spec fn lower(s: Seq<char>) -> Seq<char> {
    s.map_values(|c: char| lower_char(c))
}

/// ASCII-lowercases a string slice.
pub fn to_ascii_lower(s: &str) -> (r: String)
    ensures
        r@ == lower(s@),
{
    let len = s.unicode_len();
    let mut out = String::new();
    let mut i: usize = 0;
    while i < len
        invariant
            i <= len,
            len == s@.len(),
            out@ == lower(s@.take(i as int)),
        decreases len - i,
    {
        let c = s.get_char(i);
        let lc: char = if 'A' <= c && c <= 'Z' {
            (((c as u32) + 32) as u8) as char
        } else {
            c
        };
        push_char(&mut out, lc);
        proof {
            assert(lc == lower_char(s@[i as int]));
            assert(lower(s@.take(i + 1)) =~= lower(s@.take(i as int)) + seq![lower_char(s@[i as int])]);
        }
        i = i + 1;
    }
    proof {
        assert(s@.take(len as int) =~= s@);
    }
    out
}

// ---------- splitting and trimming ----------

/// The pieces of `s` between occurrences of `sep`, in order.  A string
/// without the separator is one piece; every separator starts a new piece,
/// so leading, trailing and doubled separators yield empty pieces.
pub open spec fn split_seq(s: Seq<char>, sep: char) -> Seq<Seq<char>>
    decreases s.len(),
{
    if s.len() == 0 {
        seq![Seq::<char>::empty()]
    } else if s[0] == sep {
        seq![Seq::<char>::empty()] + split_seq(s.skip(1), sep)
    } else {
        let rest = split_seq(s.skip(1), sep);
        seq![seq![s[0]] + rest[0]] + rest.skip(1)
    }
}

pub proof fn lemma_split_seq_len(s: Seq<char>, sep: char)
    ensures
        split_seq(s, sep).len() >= 1,
    decreases s.len(),
{
    if s.len() > 0 {
        lemma_split_seq_len(s.skip(1), sep);
    }
}

/// Splits `s` at every occurrence of `sep`, as `split_seq` describes.
pub fn split_on(s: &str, sep: char) -> (r: Vec<String>)
    ensures
        r@.map_values(|p: String| p@) == split_seq(s@, sep),
{
    let len = s.unicode_len();
    let mut done: Vec<String> = Vec::new();
    let mut cur = String::new();
    let mut i: usize = 0;
    proof {
        assert(s@.skip(0) =~= s@);
        lemma_split_seq_len(s@, sep);
        assert(done@.map_values(|p: String| p@)
            + (seq![cur@ + split_seq(s@, sep)[0]] + split_seq(s@, sep).skip(1))
            =~~= split_seq(s@, sep));
    }
    while i < len
        invariant
            i <= len,
            len == s@.len(),
            split_seq(s@.skip(i as int), sep).len() >= 1,
            done@.map_values(|p: String| p@)
                + (seq![cur@ + split_seq(s@.skip(i as int), sep)[0]]
                    + split_seq(s@.skip(i as int), sep).skip(1))
                == split_seq(s@, sep),
        decreases len - i,
    {
        let ghost rest = s@.skip(i as int);
        let ghost olddone = done@;
        let ghost oldcur = cur@;
        let c = s.get_char(i);
        proof {
            assert(rest[0] == s@[i as int]);
            assert(rest.skip(1) =~= s@.skip(i + 1));
            lemma_split_seq_len(s@.skip(i + 1), sep);
        }
        if c == sep {
            done.push(cur);
            cur = String::new();
            proof {
                let next = split_seq(s@.skip(i + 1), sep);
                assert(split_seq(rest, sep) == seq![Seq::<char>::empty()] + next);
                assert(done@.map_values(|p: String| p@) =~= olddone.map_values(|p: String| p@) + seq![oldcur]);
                assert(done@.map_values(|p: String| p@)
                    + (seq![cur@ + next[0]] + next.skip(1))
                    =~~= olddone.map_values(|p: String| p@)
                        + (seq![oldcur + split_seq(rest, sep)[0]] + split_seq(rest, sep).skip(1)));
            }
        } else {
            push_char(&mut cur, c);
            proof {
                let next = split_seq(s@.skip(i + 1), sep);
                assert(split_seq(rest, sep) == seq![seq![rest[0]] + next[0]] + next.skip(1));
                assert(done@.map_values(|p: String| p@)
                    + (seq![cur@ + next[0]] + next.skip(1))
                    =~~= olddone.map_values(|p: String| p@)
                        + (seq![oldcur + split_seq(rest, sep)[0]] + split_seq(rest, sep).skip(1)));
            }
        }
        i = i + 1;
    }
    let ghost olddone = done@;
    let ghost oldcur = cur@;
    done.push(cur);
    proof {
        assert(s@.skip(i as int) =~= Seq::<char>::empty());
        assert(split_seq(s@.skip(i as int), sep) == seq![Seq::<char>::empty()]);
        assert(done@.map_values(|p: String| p@) =~= olddone.map_values(|p: String| p@) + seq![oldcur]);
        assert(done@.map_values(|p: String| p@) =~~= split_seq(s@, sep));
    }
    done
}

/// True of the ASCII whitespace characters this library trims.
pub open spec fn is_space(c: char) -> bool {
    c == ' ' || c == '\t' || c == '\n' || c == '\r'
}

pub open spec fn trim_start_spec(s: Seq<char>) -> Seq<char>
    decreases s.len(),
{
    if s.len() > 0 && is_space(s[0]) {
        trim_start_spec(s.skip(1))
    } else {
        s
    }
}

pub open spec fn trim_end_spec(s: Seq<char>) -> Seq<char>
    decreases s.len(),
{
    if s.len() > 0 && is_space(s[s.len() - 1]) {
        trim_end_spec(s.take(s.len() - 1))
    } else {
        s
    }
}

/// `s` without leading and trailing ASCII whitespace.
pub open spec fn trimmed(s: Seq<char>) -> Seq<char> {
    trim_end_spec(trim_start_spec(s))
}

/// Runtime test for `is_space`.
pub fn is_space_char(c: char) -> (r: bool)
    ensures
        r == is_space(c),
{
    c == ' ' || c == '\t' || c == '\n' || c == '\r'
}

/// Trims leading and trailing ASCII whitespace, as `trimmed` describes.
pub fn trim_str<'a>(s: &'a str) -> (r: &'a str)
    ensures
        r@ == trimmed(s@),
{
    let len = s.unicode_len();
    let mut a: usize = 0;
    proof {
        assert(s@.skip(0) =~= s@);
    }
    while a < len && is_space_char(s.get_char(a))
        invariant
            a <= len,
            len == s@.len(),
            trim_start_spec(s@) == trim_start_spec(s@.skip(a as int)),
        decreases len - a,
    {
        proof {
            let rest = s@.skip(a as int);
            assert(rest[0] == s@[a as int]);
            assert(rest.skip(1) =~= s@.skip(a + 1));
        }
        a = a + 1;
    }
    proof {
        if a == len {
            assert(s@.skip(a as int) =~= Seq::<char>::empty());
        }
        assert(trim_start_spec(s@) == s@.skip(a as int));
    }
    let mut b: usize = len;
    proof {
        assert(s@.skip(a as int) =~= s@.subrange(a as int, b as int));
    }
    while b > a && is_space_char(s.get_char(b - 1))
        invariant
            a <= b <= len,
            len == s@.len(),
            trim_start_spec(s@) == s@.skip(a as int),
            trim_end_spec(s@.skip(a as int)) == trim_end_spec(s@.subrange(a as int, b as int)),
        decreases b,
    {
        proof {
            let part = s@.subrange(a as int, b as int);
            assert(part[part.len() - 1] == s@[b - 1]);
            assert(part.take(part.len() - 1) =~= s@.subrange(a as int, b - 1));
        }
        b = b - 1;
    }
    proof {
        let part = s@.subrange(a as int, b as int);
        if b == a {
            assert(part =~= Seq::<char>::empty());
        }
        assert(trim_end_spec(part) == part);
    }
    s.substring_char(a, b)
}

// ---------- decimal formatting ----------

/// The character for one decimal digit.
pub open spec fn digit_char(d: nat) -> char {
    (((d % 10) + 48) as u8) as char
}

/// The decimal digits of `n`, most significant first.
pub open spec fn dec_digits(n: nat) -> Seq<char>
    decreases n,
{
    if n < 10 {
        seq![digit_char(n)]
    } else {
        dec_digits(n / 10) + seq![digit_char(n % 10)]
    }
}

/// Formats `n` in decimal.
pub fn format_u128(n: u128) -> (r: String)
    ensures
        r@ == dec_digits(n as nat),
    decreases n,
{
    if n < 10 {
        let mut out = String::new();
        let d: u8 = (n as u8) + 48;
        push_char(&mut out, d as char);
        out
    } else {
        let mut out = format_u128(n / 10);
        let d: u8 = ((n % 10) as u8) + 48;
        push_char(&mut out, d as char);
        out
    }
}

/// Formats `n` in decimal.
pub fn format_u64(n: u64) -> (r: String)
    ensures
        r@ == dec_digits(n as nat),
    decreases n,
{
    if n < 10 {
        let mut out = String::new();
        let d: u8 = (n as u8) + 48;
        push_char(&mut out, d as char);
        out
    } else {
        let mut out = format_u64(n / 10);
        let d: u8 = ((n % 10) as u8) + 48;
        push_char(&mut out, d as char);
        out
    }
}

} // verus!
