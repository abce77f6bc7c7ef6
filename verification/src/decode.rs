use vstd::prelude::*;

use crate::error::BlogError;
use crate::strutil::{find, find_from, lemma_find_from_found, lemma_find_from_some, match_at};

verus! {

/// Every character of `s` is a decimal digit.
pub open spec fn is_digits(s: Seq<char>) -> bool {
    forall|i: int| 0 <= i < s.len() ==> '0' <= #[trigger] s[i] && s[i] <= '9'
}

/// A year token: four digits, zero-padded.
pub open spec fn valid_year(s: Seq<char>) -> bool {
    s.len() == 4 && is_digits(s)
}

/// A month or day token: two digits, zero-padded.
pub open spec fn valid_month_or_day(s: Seq<char>) -> bool {
    s.len() == 2 && is_digits(s)
}

/// The first `n` `-`-delimited tokens of `s`.  Splitting stops once `n`
/// tokens exist, so the last token keeps any further `-` characters.  When
/// `s` runs out of delimiters early, fewer than `n` tokens come back.
pub open spec fn split_dash(s: Seq<char>, n: nat) -> Seq<Seq<char>>
    decreases n,
{
    if n <= 1 {
        seq![s]
    } else {
        match find_from(s, seq!['-'], 0) {
            None => seq![s],
            Some(p) => seq![s.take(p)] + split_dash(s.skip(p + 1), (n - 1) as nat),
        }
    }
}

/// What decoding an identifier yields: the four tokens year, month, day and
/// slug, provided the identifier splits into exactly four `-`-delimited
/// tokens whose date parts are zero-padded digits.  The slug may itself
/// contain `-` and is never re-split.
pub open spec fn decode_id_spec(s: Seq<char>) -> Option<(Seq<char>, Seq<char>, Seq<char>, Seq<char>)> {
    let toks = split_dash(s, 4);
    if toks.len() == 4 && valid_year(toks[0]) && valid_month_or_day(toks[1]) && valid_month_or_day(
        toks[2],
    ) {
        Some((toks[0], toks[1], toks[2], toks[3]))
    } else {
        None
    }
}

/// Every character of `t` is a decimal digit, checked one by one.
fn is_digits_exec(t: &str) -> (r: bool)
    ensures
        r == is_digits(t@),
{
    let n: usize = t.unicode_len();
    let mut i: usize = 0;
    while i < n
        invariant
            i <= n,
            n == t@.len(),
            forall|j: int| 0 <= j < i ==> '0' <= #[trigger] t@[j] && t@[j] <= '9',
        decreases n - i,
    {
        let c = t.get_char(i);
        if c < '0' || c > '9' {
            return false;
        }
        i += 1;
    }
    true
}

/// Decode a content item's identifier into year, month, day and slug, as
/// `decode_id_spec` describes; any identifier it does not describe is
/// rejected as malformed.
pub fn decode_identifier(s: &str) -> (r: Result<(String, String, String, String), BlogError>)
    ensures
        match r {
            Ok(t) => decode_id_spec(s@) == Some((t.0@, t.1@, t.2@, t.3@)),
            Err(e) => decode_id_spec(s@) is None && e == BlogError::MalformedIdentifier,
        },
{
    proof {
        reveal_strlit("-");
        assert("-"@ =~= seq!['-']);
    }
    let n: usize = s.unicode_len();
    let p1 = match find(s, "-", 0) {
        Some(p) => p,
        None => {
            return Err(BlogError::MalformedIdentifier);
        },
    };
    proof {
        lemma_find_from_some(s@, seq!['-'], 0, p1 as int);
    }
    let year = s.substring_char(0, p1);
    let rest1 = s.substring_char(p1 + 1, n);
    proof {
        assert(rest1@ =~= s@.skip(p1 + 1));
    }
    let n1: usize = rest1.unicode_len();
    let p2 = match find(rest1, "-", 0) {
        Some(p) => p,
        None => {
            proof {
                assert(split_dash(rest1@, 3) =~= seq![rest1@]);
                assert(split_dash(s@, 4) =~= seq![s@.take(p1 as int)] + seq![rest1@]);
                assert(split_dash(s@, 4).len() == 2);
            }
            return Err(BlogError::MalformedIdentifier);
        },
    };
    proof {
        lemma_find_from_some(rest1@, seq!['-'], 0, p2 as int);
    }
    let month = rest1.substring_char(0, p2);
    let rest2 = rest1.substring_char(p2 + 1, n1);
    proof {
        assert(rest2@ =~= rest1@.skip(p2 + 1));
    }
    let n2: usize = rest2.unicode_len();
    let p3 = match find(rest2, "-", 0) {
        Some(p) => p,
        None => {
            proof {
                assert(split_dash(rest2@, 2) =~= seq![rest2@]);
                assert(split_dash(rest1@, 3) =~= seq![rest1@.take(p2 as int)] + seq![rest2@]);
                assert(split_dash(s@, 4) =~= seq![s@.take(p1 as int)] + (seq![rest1@.take(
                    p2 as int,
                )] + seq![rest2@]));
                assert(split_dash(s@, 4).len() == 3);
            }
            return Err(BlogError::MalformedIdentifier);
        },
    };
    proof {
        lemma_find_from_some(rest2@, seq!['-'], 0, p3 as int);
    }
    let day = rest2.substring_char(0, p3);
    let slug = rest2.substring_char(p3 + 1, n2);
    proof {
        assert(slug@ =~= rest2@.skip(p3 + 1));
        assert(split_dash(rest2@.skip(p3 + 1), 1) =~= seq![slug@]);
        assert(split_dash(rest2@, 2) =~= seq![day@] + seq![slug@]);
        assert(split_dash(rest1@, 3) =~= seq![month@] + (seq![day@] + seq![slug@]));
        assert(split_dash(s@, 4) =~= seq![year@] + (seq![month@] + (seq![day@] + seq![slug@])));
        assert(split_dash(s@, 4).len() == 4);
        assert(split_dash(s@, 4)[0] == year@);
        assert(split_dash(s@, 4)[1] == month@);
        assert(split_dash(s@, 4)[2] == day@);
        assert(split_dash(s@, 4)[3] == slug@);
    }
    let year_len: usize = year.unicode_len();
    let month_len: usize = month.unicode_len();
    let day_len: usize = day.unicode_len();
    if year_len != 4 || month_len != 2 || day_len != 2 {
        return Err(BlogError::MalformedIdentifier);
    }
    if !is_digits_exec(year) || !is_digits_exec(month) || !is_digits_exec(day) {
        return Err(BlogError::MalformedIdentifier);
    }
    Ok(
        (
            String::from_str(year),
            String::from_str(month),
            String::from_str(day),
            String::from_str(slug),
        ),
    )
}

/// Splitting off the head token: in `tok-rest`, where `tok` holds no `-`,
/// the first `-` stands right after `tok`.
pub proof fn lemma_split_head(tok: Seq<char>, rest: Seq<char>)
    requires
        forall|i: int| 0 <= i < tok.len() ==> #[trigger] tok[i] != '-',
    ensures
        find_from(tok + seq!['-'] + rest, seq!['-'], 0) == Some(tok.len() as int),
        (tok + seq!['-'] + rest).take(tok.len() as int) == tok,
        (tok + seq!['-'] + rest).skip(tok.len() as int + 1) == rest,
{
    let s = tok + seq!['-'] + rest;
    assert(s[tok.len() as int] == '-');
    assert(match_at(s, seq!['-'], tok.len() as int)) by {
        assert(s.subrange(tok.len() as int, tok.len() as int + 1) =~= seq!['-']);
    }
    assert forall|j: int| 0 <= j < tok.len() implies !match_at(s, seq!['-'], j) by {
        if match_at(s, seq!['-'], j) {
            assert(s.subrange(j, j + 1)[0] == s[j]);
            assert(s[j] == tok[j]);
        }
    }
    lemma_find_from_found(s, seq!['-'], 0, tok.len() as int);
    assert(s.take(tok.len() as int) =~= tok);
    assert(s.skip(tok.len() as int + 1) =~= rest);
}

/// Law: every identifier of the form `year-month-day-slug` with zero-padded
/// digit date tokens decodes to exactly those four tokens; the slug may
/// itself contain `-` and is never re-split.
pub proof fn lemma_decode_identifier_exact(y: Seq<char>, m: Seq<char>, d: Seq<char>, slug: Seq<char>)
    requires
        valid_year(y),
        valid_month_or_day(m),
        valid_month_or_day(d),
    ensures
        decode_id_spec(y + seq!['-'] + m + seq!['-'] + d + seq!['-'] + slug) == Some(
            (y, m, d, slug),
        ),
{
    let rest2 = d + seq!['-'] + slug;
    let rest1 = m + seq!['-'] + rest2;
    let s = y + seq!['-'] + rest1;
    assert(s =~= y + seq!['-'] + m + seq!['-'] + d + seq!['-'] + slug);
    assert forall|i: int| 0 <= i < y.len() implies #[trigger] y[i] != '-' by {
        assert('0' <= y[i] && y[i] <= '9');
    }
    assert forall|i: int| 0 <= i < m.len() implies #[trigger] m[i] != '-' by {
        assert('0' <= m[i] && m[i] <= '9');
    }
    assert forall|i: int| 0 <= i < d.len() implies #[trigger] d[i] != '-' by {
        assert('0' <= d[i] && d[i] <= '9');
    }
    lemma_split_head(y, rest1);
    lemma_split_head(m, rest2);
    lemma_split_head(d, slug);
    assert(split_dash(slug, 1) =~= seq![slug]);
    assert(split_dash(rest2, 2) =~= seq![d] + seq![slug]);
    assert(split_dash(rest1, 3) =~= seq![m] + (seq![d] + seq![slug]));
    assert(split_dash(s, 4) =~= seq![y] + (seq![m] + (seq![d] + seq![slug])));
    assert(split_dash(s, 4).len() == 4);
    assert(split_dash(s, 4)[0] == y);
    assert(split_dash(s, 4)[1] == m);
    assert(split_dash(s, 4)[2] == d);
    assert(split_dash(s, 4)[3] == slug);
}

/// Law: an identifier with fewer than four `-`-delimited tokens is rejected
/// as malformed.
pub proof fn lemma_decode_identifier_rejects_short(s: Seq<char>)
    requires
        split_dash(s, 4).len() < 4,
    ensures
        decode_id_spec(s) is None,
{
}

/// The position of the last occurrence of `c` in `s`.
pub open spec fn find_last(s: Seq<char>, c: char) -> Option<int>
    decreases s.len(),
{
    if s.len() == 0 {
        None
    } else if s[s.len() - 1] == c {
        Some(s.len() - 1)
    } else {
        find_last(s.take(s.len() - 1), c)
    }
}

/// The slug without its extension: everything before the last `.`, except
/// that a leading `.` (a hidden-file style name) is not treated as the
/// start of an extension.
pub open spec fn strip_ext_spec(s: Seq<char>) -> Seq<char> {
    match find_last(s, '.') {
        Some(i) => if i > 0 {
            s.take(i)
        } else {
            s
        },
        None => s,
    }
}

/// Remove the extension from a slug, as `strip_ext_spec` describes.
pub fn strip_extension(s: &str) -> (r: String)
    ensures
        r@ == strip_ext_spec(s@),
{
    let n: usize = s.unicode_len();
    let mut i: usize = n;
    proof {
        assert(s@.take(n as int) =~= s@);
    }
    while i > 0
        invariant
            i <= n,
            n == s@.len(),
            find_last(s@, '.') == find_last(s@.take(i as int), '.'),
        decreases i,
    {
        let c = s.get_char(i - 1);
        if c == '.' {
            proof {
                assert(s@.take(i as int)[i - 1] == s@[i - 1]);
                assert(find_last(s@.take(i as int), '.') == Some(i - 1));
            }
            if i - 1 > 0 {
                return String::from_str(s.substring_char(0, i - 1));
            }
            return String::from_str(s);
        }
        proof {
            assert(s@.take(i as int)[i - 1] == s@[i - 1]);
            assert(s@.take(i as int).take(i - 1) =~= s@.take(i - 1));
        }
        i -= 1;
    }
    proof {
        assert(s@.take(0).len() == 0);
    }
    String::from_str(s)
}

} // verus!
