use vstd::prelude::*;

use crate::error::BlogError;
use crate::strutil::{find, find_from, lemma_find_from_found, lemma_find_from_some, match_at};

verus! {

/// The closing delimiter searched for after the opening `---\n`.
pub open spec fn fm_delim() -> Seq<char> {
    seq!['-', '-', '-']
}

/// The opening delimiter content text must start with.
pub open spec fn fm_open() -> Seq<char> {
    seq!['-', '-', '-', '\n']
}

/// The outcome of splitting raw content text.  The text must begin with
/// `---` and a newline; the first `---` found after that opening closes the
/// metadata block, which runs from the start of the text through that
/// closing delimiter inclusive.  The body is everything after the closing
/// delimiter, its newline and one further blank line, that is five
/// characters past the start of the closing delimiter; text ending before
/// that point has a truncated body.
pub open spec fn split_fm_spec(text: Seq<char>) -> Result<(Seq<char>, Seq<char>), BlogError> {
    if !(text.len() >= 4 && text.subrange(0, 4) == fm_open()) {
        Err(BlogError::MissingFrontMatterDelimiter)
    } else {
        match find_from(text, fm_delim(), 4) {
            None => Err(BlogError::MissingFrontMatterDelimiter),
            Some(p) => {
                if text.len() >= p + 5 {
                    Ok((text.take(p + 3), text.skip(p + 5)))
                } else {
                    Err(BlogError::TruncatedBody)
                }
            },
        }
    }
}

/// Split raw content text into its front-matter block and its body, as
/// `split_fm_spec` describes.
pub fn split_front_matter(text: &str) -> (r: Result<(String, String), BlogError>)
    ensures
        match r {
            Ok(t) => split_fm_spec(text@) == Ok::<_, BlogError>((t.0@, t.1@)),
            Err(e) => split_fm_spec(text@) == Err::<(Seq<char>, Seq<char>), _>(e),
        },
{
    proof {
        reveal_strlit("---");
        assert("---"@ =~= fm_delim());
    }
    let n: usize = text.unicode_len();
    if n < 4 {
        return Err(BlogError::MissingFrontMatterDelimiter);
    }
    if text.get_char(0) != '-' || text.get_char(1) != '-' || text.get_char(2) != '-'
        || text.get_char(3) != '\n' {
        proof {
            assert(text@.subrange(0, 4)[0] == text@[0]);
            assert(text@.subrange(0, 4)[1] == text@[1]);
            assert(text@.subrange(0, 4)[2] == text@[2]);
            assert(text@.subrange(0, 4)[3] == text@[3]);
        }
        return Err(BlogError::MissingFrontMatterDelimiter);
    }
    proof {
        assert(text@.subrange(0, 4) =~= fm_open());
    }
    let p = match find(text, "---", 4) {
        Some(p) => p,
        None => {
            return Err(BlogError::MissingFrontMatterDelimiter);
        },
    };
    proof {
        lemma_find_from_some(text@, fm_delim(), 4, p as int);
    }
    if n - p < 5 {
        return Err(BlogError::TruncatedBody);
    }
    let block = text.substring_char(0, p + 3);
    let body = text.substring_char(p + 5, n);
    proof {
        assert(block@ =~= text@.take(p + 3));
        assert(body@ =~= text@.skip(p + 5));
    }
    Ok((String::from_str(block), String::from_str(body)))
}

/// Law: for all text of the form `---\n<meta>\n---\n\n<body>` whose
/// metadata contains no `---` of its own, the splitter succeeds, the
/// metadata block ends exactly at the second `---`, and the returned body
/// is exactly `<body>`.
pub proof fn lemma_split_front_matter_exact(meta: Seq<char>, body: Seq<char>)
    requires
        forall|j: int| !match_at(meta, fm_delim(), j),
    ensures
        split_fm_spec(fm_open() + meta + seq!['\n', '-', '-', '-', '\n', '\n'] + body) == Ok::<
            _,
            BlogError,
        >((fm_open() + meta + seq!['\n', '-', '-', '-'], body)),
{
    let mid = seq!['\n', '-', '-', '-', '\n', '\n'];
    let t = fm_open() + meta + mid + body;
    let l = meta.len() as int;
    assert(t.len() == 10 + l + body.len());
    assert forall|i: int| 0 <= i < 4 implies t[i] == fm_open()[i] by {}
    assert forall|i: int| 4 <= i < 4 + l implies t[i] == meta[i - 4] by {}
    assert forall|i: int| 4 + l <= i < 10 + l implies t[i] == mid[i - 4 - l] by {}
    assert forall|i: int| 10 + l <= i < t.len() implies t[i] == body[i - 10 - l] by {}
    assert(t.subrange(0, 4) =~= fm_open());
    assert(t[l + 4] == '\n');
    assert(match_at(t, fm_delim(), l + 5)) by {
        assert(t.subrange(l + 5, l + 8) =~= fm_delim());
    }
    assert forall|j: int| 4 <= j < l + 5 implies !match_at(t, fm_delim(), j) by {
        if match_at(t, fm_delim(), j) {
            if j + 3 <= l + 4 {
                assert(meta.subrange(j - 4, j - 1) =~= t.subrange(j, j + 3));
                assert(match_at(meta, fm_delim(), j - 4));
            } else {
                let o = l + 4 - j;
                assert(0 <= o < 3);
                assert(t.subrange(j, j + 3)[o] == t[l + 4]);
                assert(fm_delim()[o] == '-');
            }
        }
    }
    lemma_find_from_found(t, fm_delim(), 4, l + 5);
    assert(t.len() >= l + 10);
    assert(t.take(l + 8) =~= fm_open() + meta + seq!['\n', '-', '-', '-']);
    assert(t.skip(l + 10) =~= body);
}

} // verus!
