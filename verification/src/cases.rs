//! The name case transcoder: a single left-to-right pass that converts a
//! boundary-marked compound identifier ("InQA", "FinalCodeReview") into its
//! spaced-Pascal, snake_case and kebab-case forms.
//!
//! A separator is inserted immediately before a character exactly when that
//! character is an uppercase letter and the directly preceding character is a
//! lowercase letter; consecutive uppercase runs are never split, so acronyms
//! stay joined ("InQA" becomes "In QA", not "In Q A").

use vstd::prelude::*;
use vstd::string::StrSliceExecFns;

use crate::text::{is_ascii_lower, is_ascii_upper, lower_char, to_lower};

verus! {

/// The output character for an input character: lowercased when `fold` is set.
pub open spec fn out_char(c: char, fold: bool) -> char {
    if fold {
        to_lower(c)
    } else {
        c
    }
}

/// The transcoded form of `s`, given that the character directly before `s`
/// is a lowercase letter iff `prev_lower`.
pub open spec fn transcode_from(s: Seq<char>, prev_lower: bool, sep: char, fold: bool) -> Seq<
    char,
>
    decreases s.len(),
{
    if s.len() == 0 {
        Seq::empty()
    } else {
        let c = s[0];
        let head: Seq<char> = if prev_lower && is_ascii_upper(c) {
            seq![sep, out_char(c, fold)]
        } else {
            seq![out_char(c, fold)]
        };
        head + transcode_from(s.drop_first(), is_ascii_lower(c), sep, fold)
    }
}

/// The transcoded form of a whole identifier.
pub open spec fn transcode(s: Seq<char>, sep: char, fold: bool) -> Seq<char> {
    transcode_from(s, false, sep, fold)
}

/// The spaced-Pascal form: "InQA" becomes "In QA".
pub open spec fn spaced_pascal_form(s: Seq<char>) -> Seq<char> {
    transcode(s, ' ', false)
}

/// The snake_case form: "InQA" becomes "in_qa".
pub open spec fn snake_case_form(s: Seq<char>) -> Seq<char> {
    transcode(s, '_', true)
}

/// The kebab-case form: "InQA" becomes "in-qa".
pub open spec fn kebab_case_form(s: Seq<char>) -> Seq<char> {
    transcode(s, '-', true)
}

/// Whether the character directly before position `s.len()` is a lowercase
/// letter, given that the character before `s` is one iff `prev_lower`.
pub open spec fn last_is_lower(s: Seq<char>, prev_lower: bool) -> bool {
    if s.len() == 0 {
        prev_lower
    } else {
        is_ascii_lower(s.last())
    }
}

/// The piece that one further input character appends to the transcoded form.
pub open spec fn step_piece(c: char, prev_lower: bool, sep: char, fold: bool) -> Seq<char> {
    if prev_lower && is_ascii_upper(c) {
        seq![sep, out_char(c, fold)]
    } else {
        seq![out_char(c, fold)]
    }
}

/// Extending the input by one character extends the transcoded form by the
/// piece that character contributes.
pub proof fn lemma_transcode_snoc(s: Seq<char>, prev_lower: bool, sep: char, fold: bool, c: char)
    ensures
        transcode_from(s.push(c), prev_lower, sep, fold) == transcode_from(s, prev_lower, sep, fold)
            + step_piece(c, last_is_lower(s, prev_lower), sep, fold),
    decreases s.len(),
{
    if s.len() == 0 {
        assert(s.push(c)[0] == c);
        assert(s.push(c).drop_first() =~= Seq::<char>::empty());
        assert(transcode_from(Seq::<char>::empty(), is_ascii_lower(c), sep, fold)
            == Seq::<char>::empty());
        assert(transcode_from(s, prev_lower, sep, fold) == Seq::<char>::empty());
        assert(transcode_from(s.push(c), prev_lower, sep, fold) =~= transcode_from(
            s,
            prev_lower,
            sep,
            fold,
        ) + step_piece(c, last_is_lower(s, prev_lower), sep, fold));
    } else {
        assert(s.push(c)[0] == s[0]);
        assert(s.push(c).drop_first() =~= s.drop_first().push(c));
        lemma_transcode_snoc(s.drop_first(), is_ascii_lower(s[0]), sep, fold, c);
        assert(last_is_lower(s.drop_first(), is_ascii_lower(s[0])) == last_is_lower(
            s,
            prev_lower,
        ));
        assert(transcode_from(s.push(c), prev_lower, sep, fold) =~= transcode_from(
            s,
            prev_lower,
            sep,
            fold,
        ) + step_piece(c, last_is_lower(s, prev_lower), sep, fold));
    }
}

/// The single left-to-right transcoding pass.
fn transcode_exec(s: &str, sep: char, fold: bool) -> (r: String)
    ensures
        r@ == transcode(s@, sep, fold),
{
    let mut out = String::new();
    let slen = s.unicode_len();
    let mut prev_lower = false;
    let mut i: usize = 0;
    while i < slen
        invariant
            i <= slen,
            slen == s@.len(),
            out@ == transcode_from(s@.take(i as int), false, sep, fold),
            prev_lower == last_is_lower(s@.take(i as int), false),
        decreases slen - i,
    {
        let c = s.get_char(i);
        let ghost prefix = s@.take(i as int);
        if prev_lower && c >= 'A' && c <= 'Z' {
            out.push(sep);
        }
        out.push(if fold {
            lower_char(c)
        } else {
            c
        });
        proof {
            lemma_transcode_snoc(prefix, false, sep, fold, c);
            assert(s@.take(i + 1) =~= prefix.push(c));
            assert(out@ =~= transcode_from(prefix, false, sep, fold) + step_piece(
                c,
                last_is_lower(prefix, false),
                sep,
                fold,
            ));
            assert(s@.take(i + 1).last() == c);
        }
        prev_lower = c >= 'a' && c <= 'z';
        i = i + 1;
    }
    proof {
        assert(s@.take(slen as int) =~= s@);
    }
    out
}

/// No position at which an uppercase letter directly follows a lowercase
/// letter, so a transcoding pass over the string inserts no separator.
pub open spec fn boundary_free(s: Seq<char>) -> bool {
    forall|i: int| 1 <= i < s.len() ==> !(is_ascii_upper(s[i]) && is_ascii_lower(s[i - 1]))
}

/// The first character of a non-empty transcoded form.
proof fn lemma_transcode_first(s: Seq<char>, prev_lower: bool, sep: char, fold: bool)
    ensures
        s.len() == 0 ==> transcode_from(s, prev_lower, sep, fold) == Seq::<char>::empty(),
        s.len() > 0 ==> transcode_from(s, prev_lower, sep, fold).len() > 0
            && transcode_from(s, prev_lower, sep, fold)[0] == (if prev_lower && is_ascii_upper(
            s[0],
        ) {
            sep
        } else {
            out_char(s[0], fold)
        }),
{
}

/// Every character of a folded transcoded form is fixed under lowercasing.
proof fn lemma_fold_output_lower(s: Seq<char>, prev_lower: bool, sep: char)
    requires
        !is_ascii_upper(sep),
    ensures
        forall|i: int|
            0 <= i < transcode_from(s, prev_lower, sep, true).len() ==> to_lower(
                #[trigger] transcode_from(s, prev_lower, sep, true)[i],
            ) == transcode_from(s, prev_lower, sep, true)[i],
    decreases s.len(),
{
    if s.len() > 0 {
        let out = transcode_from(s, prev_lower, sep, true);
        let rest = transcode_from(s.drop_first(), is_ascii_lower(s[0]), sep, true);
        let head: Seq<char> = if prev_lower && is_ascii_upper(s[0]) {
            seq![sep, out_char(s[0], true)]
        } else {
            seq![out_char(s[0], true)]
        };
        lemma_fold_output_lower(s.drop_first(), is_ascii_lower(s[0]), sep);
        crate::text::lemma_to_lower_idempotent(s[0]);
        assert(out == head + rest);
        assert forall|i: int| 0 <= i < out.len() implies to_lower(out[i]) == out[i] by {
            if i < head.len() {
                assert(out[i] == head[i]);
            } else {
                assert(out[i] == rest[i - head.len()]);
            }
        }
    }
}

/// A transcoded form never places an uppercase letter directly after a
/// lowercase letter: every boundary has already been marked.
proof fn lemma_output_boundary_free(s: Seq<char>, prev_lower: bool, sep: char, fold: bool)
    requires
        !is_ascii_upper(sep),
        !is_ascii_lower(sep),
    ensures
        boundary_free(transcode_from(s, prev_lower, sep, fold)),
    decreases s.len(),
{
    if s.len() > 0 {
        let out = transcode_from(s, prev_lower, sep, fold);
        let rest = transcode_from(s.drop_first(), is_ascii_lower(s[0]), sep, fold);
        lemma_output_boundary_free(s.drop_first(), is_ascii_lower(s[0]), sep, fold);
        lemma_transcode_first(s.drop_first(), is_ascii_lower(s[0]), sep, fold);
        if fold {
            lemma_fold_output_lower(s.drop_first(), is_ascii_lower(s[0]), sep);
            crate::text::lemma_to_lower_idempotent(s[0]);
        }
        let head: Seq<char> = if prev_lower && is_ascii_upper(s[0]) {
            seq![sep, out_char(s[0], fold)]
        } else {
            seq![out_char(s[0], fold)]
        };
        assert(out == head + rest);
        assert forall|i: int|
            1 <= i < out.len() implies !(is_ascii_upper(out[i]) && is_ascii_lower(
            out[i - 1],
        )) by {
            if i < head.len() {
                assert(out[i] == out_char(s[0], fold));
                assert(out[i - 1] == sep);
            } else if i == head.len() {
                assert(out[i] == rest[0]);
                assert(out[i - 1] == out_char(s[0], fold));
                if s.len() > 1 && !(is_ascii_lower(s[0]) && is_ascii_upper(s[1])) && !fold {
                    assert(rest[0] == out_char(s[1], fold));
                }
            } else {
                assert(out[i] == rest[i - head.len()]);
                assert(out[i - 1] == rest[i - 1 - head.len()]);
            }
        }
    }
}

/// Transcoding a string that already carries its boundary markers, and whose
/// characters are already in output form, returns it unchanged.
proof fn lemma_transcode_fixed(s: Seq<char>, prev_lower: bool, sep: char, fold: bool)
    requires
        boundary_free(s),
        s.len() > 0 && prev_lower ==> !is_ascii_upper(s[0]),
        fold ==> forall|i: int| 0 <= i < s.len() ==> to_lower(#[trigger] s[i]) == s[i],
    ensures
        transcode_from(s, prev_lower, sep, fold) == s,
    decreases s.len(),
{
    if s.len() > 0 {
        assert(s.drop_first().len() > 0 && is_ascii_lower(s[0]) ==> !is_ascii_upper(
            s.drop_first()[0],
        ));
        lemma_transcode_fixed(s.drop_first(), is_ascii_lower(s[0]), sep, fold);
        if fold {
            assert(out_char(s[0], fold) == s[0]);
        }
        assert(transcode_from(s, prev_lower, sep, fold) =~= s);
    }
}

/// Transcoding is idempotent: one pass marks every boundary, so a second pass
/// over the output changes nothing.
pub proof fn lemma_transcode_idempotent(s: Seq<char>, sep: char, fold: bool)
    requires
        !is_ascii_upper(sep),
        !is_ascii_lower(sep),
    ensures
        transcode(transcode(s, sep, fold), sep, fold) == transcode(s, sep, fold),
{
    let t = transcode(s, sep, fold);
    lemma_output_boundary_free(s, false, sep, fold);
    if fold {
        lemma_fold_output_lower(s, false, sep);
    }
    lemma_transcode_fixed(t, false, sep, fold);
}

/// Applying the spaced-Pascal transform to an already spaced-Pascal string
/// yields the same string.
pub proof fn lemma_spaced_pascal_idempotent(s: Seq<char>)
    ensures
        spaced_pascal_form(spaced_pascal_form(s)) == spaced_pascal_form(s),
{
    lemma_transcode_idempotent(s, ' ', false);
}

/// Applying the snake_case transform to an already snake_case string yields
/// the same string.
pub proof fn lemma_snake_case_idempotent(s: Seq<char>)
    ensures
        snake_case_form(snake_case_form(s)) == snake_case_form(s),
{
    lemma_transcode_idempotent(s, '_', true);
}

/// Applying the kebab-case transform to an already kebab-case string yields
/// the same string.
pub proof fn lemma_kebab_case_idempotent(s: Seq<char>)
    ensures
        kebab_case_form(kebab_case_form(s)) == kebab_case_form(s),
{
    lemma_transcode_idempotent(s, '-', true);
}

/// `s` with every occurrence of `sep` removed.
pub open spec fn strip_sep(s: Seq<char>, sep: char) -> Seq<char>
    decreases s.len(),
{
    if s.len() == 0 {
        Seq::empty()
    } else if s[0] == sep {
        strip_sep(s.drop_first(), sep)
    } else {
        seq![s[0]] + strip_sep(s.drop_first(), sep)
    }
}

/// `s` with every character lowercased.
pub open spec fn folded(s: Seq<char>) -> Seq<char> {
    s.map_values(|c: char| to_lower(c))
}

/// Removing the separators from a transcoded form recovers the input (its
/// lowercase folding, for a folded form), provided the input itself contains
/// no separator and the separator is not a lowercase letter.
proof fn lemma_strip_transcode(s: Seq<char>, prev_lower: bool, sep: char, fold: bool)
    requires
        forall|i: int| 0 <= i < s.len() ==> s[i] != sep,
        !is_ascii_lower(sep),
    ensures
        strip_sep(transcode_from(s, prev_lower, sep, fold), sep) == if fold {
            folded(s)
        } else {
            s
        },
    decreases s.len(),
{
    if s.len() > 0 {
        let out = transcode_from(s, prev_lower, sep, fold);
        let rest = transcode_from(s.drop_first(), is_ascii_lower(s[0]), sep, fold);
        let c0 = out_char(s[0], fold);
        let tail: Seq<char> = if fold {
            folded(s.drop_first())
        } else {
            s.drop_first()
        };
        let whole: Seq<char> = if fold {
            folded(s)
        } else {
            s
        };
        lemma_strip_transcode(s.drop_first(), is_ascii_lower(s[0]), sep, fold);
        crate::text::lemma_to_lower_idempotent(s[0]);
        assert(c0 != sep);
        assert(whole[0] == c0);
        assert(whole.drop_first() =~= tail);
        if prev_lower && is_ascii_upper(s[0]) {
            assert(out == seq![sep, c0] + rest);
            assert(out[0] == sep);
            assert(out.drop_first() =~= seq![c0] + rest);
            let out2 = seq![c0] + rest;
            assert(out2[0] == c0);
            assert(out2.drop_first() =~= rest);
            assert(strip_sep(out2, sep) == seq![c0] + strip_sep(rest, sep));
            assert(strip_sep(out, sep) =~= whole);
        } else {
            assert(out == seq![c0] + rest);
            assert(out[0] == c0);
            assert(out.drop_first() =~= rest);
            assert(strip_sep(out, sep) =~= whole);
        }
    } else {
        if fold {
            assert(folded(s) =~= Seq::<char>::empty());
        }
    }
}

/// Over identifiers that contain no space, the spaced-Pascal transform is
/// injective: distinct identifiers keep distinct spaced forms.
pub proof fn lemma_spaced_pascal_injective(a: Seq<char>, b: Seq<char>)
    requires
        spaced_pascal_form(a) == spaced_pascal_form(b),
        forall|i: int| 0 <= i < a.len() ==> a[i] != ' ',
        forall|i: int| 0 <= i < b.len() ==> b[i] != ' ',
    ensures
        a == b,
{
    lemma_strip_transcode(a, false, ' ', false);
    lemma_strip_transcode(b, false, ' ', false);
}

/// Over identifiers that contain no underscore, the snake_case transform is
/// injective up to lowercase folding: identifiers with distinct foldings
/// keep distinct snake_case forms.
pub proof fn lemma_snake_case_injective(a: Seq<char>, b: Seq<char>)
    requires
        snake_case_form(a) == snake_case_form(b),
        forall|i: int| 0 <= i < a.len() ==> a[i] != '_',
        forall|i: int| 0 <= i < b.len() ==> b[i] != '_',
    ensures
        folded(a) == folded(b),
{
    lemma_strip_transcode(a, false, '_', true);
    lemma_strip_transcode(b, false, '_', true);
}

/// Over identifiers that contain no hyphen, the kebab-case transform is
/// injective up to lowercase folding: identifiers with distinct foldings
/// keep distinct kebab-case forms.
pub proof fn lemma_kebab_case_injective(a: Seq<char>, b: Seq<char>)
    requires
        kebab_case_form(a) == kebab_case_form(b),
        forall|i: int| 0 <= i < a.len() ==> a[i] != '-',
        forall|i: int| 0 <= i < b.len() ==> b[i] != '-',
    ensures
        folded(a) == folded(b),
{
    lemma_strip_transcode(a, false, '-', true);
    lemma_strip_transcode(b, false, '-', true);
}

/// Splits a compound identifier into a space-separated string:
/// "InQA" becomes "In QA".
pub fn split_pascal_case(s: &str) -> (r: String)
    ensures
        r@ == spaced_pascal_form(s@),
{
    transcode_exec(s, ' ', false)
}

/// Converts a compound identifier to snake_case: "InQA" becomes "in_qa".
pub fn to_snake_case(s: &str) -> (r: String)
    ensures
        r@ == snake_case_form(s@),
{
    transcode_exec(s, '_', true)
}

/// Converts a compound identifier to kebab-case: "InQA" becomes "in-qa".
pub fn to_kebab_case(s: &str) -> (r: String)
    ensures
        r@ == kebab_case_form(s@),
{
    transcode_exec(s, '-', true)
}

} // verus!
