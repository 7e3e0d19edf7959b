//! Splitting a MIME-type declaration value into its tokens.
//!
//! A declaration value lists MIME types separated by semicolons; empty
//! segments (such as the one produced by a trailing delimiter) are discarded.

use vstd::prelude::*;
use vstd::string::StrSliceExecFns;

verus! {

/// The character that separates MIME-type tokens in a declaration value.
pub open spec fn delimiter() -> char {
    ';'
}

/// The non-empty tokens contributed by `rest`, where `pending` is the partial
/// token accumulated from the characters already consumed to the left.
pub open spec fn tokens_from(pending: Seq<char>, rest: Seq<char>) -> Seq<Seq<char>>
    decreases rest.len(),
{
    if rest.len() == 0 {
        if pending.len() == 0 {
            Seq::empty()
        } else {
            seq![pending]
        }
    } else if rest[0] == delimiter() {
        (if pending.len() == 0 {
            Seq::empty()
        } else {
            seq![pending]
        }) + tokens_from(Seq::empty(), rest.drop_first())
    } else {
        tokens_from(pending.push(rest[0]), rest.drop_first())
    }
}

/// The MIME-type tokens declared by `value`: the value split on the
/// delimiter, with every empty segment discarded.
pub open spec fn mime_tokens(value: Seq<char>) -> Seq<Seq<char>> {
    tokens_from(Seq::empty(), value)
}

/// Every token of a declaration value is non-empty: a trailing or doubled
/// delimiter never yields an empty MIME type.
pub proof fn lemma_tokens_nonempty(pending: Seq<char>, rest: Seq<char>)
    ensures
        forall|j: int|
            0 <= j < tokens_from(pending, rest).len() ==> #[trigger] tokens_from(
                pending,
                rest,
            )[j].len() > 0,
    decreases rest.len(),
{
    if rest.len() == 0 {
    } else if rest[0] == delimiter() {
        lemma_tokens_nonempty(Seq::empty(), rest.drop_first());
        let pre: Seq<Seq<char>> = if pending.len() == 0 {
            Seq::empty()
        } else {
            seq![pending]
        };
        assert forall|j: int| 0 <= j < tokens_from(pending, rest).len() implies #[trigger] tokens_from(
            pending,
            rest,
        )[j].len() > 0 by {
            if j >= pre.len() {
                assert(tokens_from(pending, rest)[j] == tokens_from(
                    Seq::empty(),
                    rest.drop_first(),
                )[j - pre.len()]);
            }
        }
    } else {
        lemma_tokens_nonempty(pending.push(rest[0]), rest.drop_first());
        assert forall|j: int| 0 <= j < tokens_from(pending, rest).len() implies #[trigger] tokens_from(
            pending,
            rest,
        )[j].len() > 0 by {
            assert(tokens_from(pending, rest)[j] == tokens_from(
                pending.push(rest[0]),
                rest.drop_first(),
            )[j]);
        }
    }
}

/// Splits a declaration value on the delimiter, discarding empty segments.
pub fn split_mime_list(value: &str) -> (tokens: Vec<String>)
    ensures
        tokens.deep_view() == mime_tokens(value@),
        forall|j: int| 0 <= j < tokens.len() ==> #[trigger] tokens[j]@.len() > 0,
{
    let n: usize = value.unicode_len();
    let mut out: Vec<String> = Vec::new();
    let mut start: usize = 0;
    let mut i: usize = 0;
    proof {
        assert(value@.subrange(0, 0) =~= Seq::<char>::empty());
        assert(value@.subrange(0, n as int) =~= value@);
        assert(out.deep_view() + tokens_from(value@.subrange(0, 0), value@.subrange(0, n as int))
            =~~= mime_tokens(value@));
    }
    while i < n
        invariant
            n == value@.len(),
            0 <= start <= i <= n,
            out.deep_view() + tokens_from(
                value@.subrange(start as int, i as int),
                value@.subrange(i as int, n as int),
            ) =~~= mime_tokens(value@),
        decreases n - i,
    {
        let ghost pending = value@.subrange(start as int, i as int);
        let ghost rest = value@.subrange(i as int, n as int);
        proof {
            assert(rest[0] == value@[i as int]);
            assert(rest.drop_first() =~= value@.subrange(i as int + 1, n as int));
        }
        let c = value.get_char(i);
        if c == ';' {
            if start < i {
                let ghost dv0 = out.deep_view();
                let token = value.substring_char(start, i).to_owned();
                out.push(token);
                proof {
                    assert(out.deep_view() =~~= dv0.push(pending));
                    assert(value@.subrange(i as int + 1, i as int + 1) =~= Seq::<char>::empty());
                    assert(dv0.push(pending) + tokens_from(Seq::empty(), rest.drop_first())
                        =~~= dv0 + tokens_from(pending, rest));
                }
            } else {
                proof {
                    assert(pending =~= Seq::<char>::empty());
                    assert(value@.subrange(i as int + 1, i as int + 1) =~= Seq::<char>::empty());
                    assert(Seq::<Seq<char>>::empty() + tokens_from(Seq::empty(), rest.drop_first())
                        =~~= tokens_from(Seq::empty(), rest.drop_first()));
                }
            }
            start = i + 1;
        } else {
            proof {
                assert(pending.push(rest[0]) =~= value@.subrange(start as int, i as int + 1));
            }
        }
        i = i + 1;
    }
    let ghost pending = value@.subrange(start as int, n as int);
    proof {
        assert(value@.subrange(n as int, n as int) =~= Seq::<char>::empty());
        assert(value@.subrange(n as int, n as int).len() == 0);
    }
    if start < n {
        let ghost dv0 = out.deep_view();
        let token = value.substring_char(start, n).to_owned();
        out.push(token);
        proof {
            assert(out.deep_view() =~~= dv0.push(pending));
            assert(dv0.push(pending) =~~= dv0 + seq![pending]);
        }
    } else {
        proof {
            assert(pending =~= Seq::<char>::empty());
        }
    }
    proof {
        assert(out.deep_view() =~~= mime_tokens(value@));
        lemma_tokens_nonempty(Seq::empty(), value@);
        assert forall|j: int| 0 <= j < out.len() implies #[trigger] out[j]@.len() > 0 by {
            assert(out[j]@ == out.deep_view()[j]);
            assert(out.deep_view()[j] == mime_tokens(value@)[j]);
        }
    }
    out
}

} // verus!
