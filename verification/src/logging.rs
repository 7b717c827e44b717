//! What may be written down or shown: everything but credentials.
use vstd::prelude::*;

use crate::text;
use crate::text::Class;

verus! {

/// What takes the place of a credential.
pub const REDACTED: &'static str = "[REDACTED]";

/// Where the value begins in a word that assigns a credential.
pub open spec fn assigned(word: Seq<char>, name: Seq<char>) -> Option<int> {
    match text::found_from(text::lowered(word), name, 0) {
        Some(at) => Some(at + name.len()),
        None => None,
    }
}

/// Where the credential in a word begins, if the word assigns one.
pub open spec fn credential(word: Seq<char>) -> Option<int> {
    match assigned(word, "token="@) {
        Some(at) => Some(at),
        None => match assigned(word, "password="@) {
            Some(at) => Some(at),
            None => assigned(word, "secret="@),
        },
    }
}

/// A word as it may be shown: nothing of it where a bearer scheme stands before
/// it, and nothing of the value where it assigns a credential.
pub open spec fn covered(word: Seq<char>, bearer: bool) -> Seq<char> {
    if bearer {
        REDACTED@
    } else {
        match credential(word) {
            Some(at) => word.take(at) + REDACTED@,
            None => word,
        }
    }
}

/// A text as it may be shown; `bearer` says whether the word before it names
/// the bearer scheme. White space stays as it is.
pub open spec fn redacted(text: Seq<char>, bearer: bool) -> Seq<char>
    decreases text.len(),
{
    let rest = text::trimmed_start(text, Class::White);
    let word = text::first_word(text);
    if word.len() == 0 {
        text
    } else {
        proof {
            lemma_word(text);
        }
        text.take(text.len() - rest.len()) + covered(word, bearer) + redacted(
            text::after_first_word(text),
            text::lowered(word) == "bearer"@,
        )
    }
}

/// The white space, the first word and what follows it make up the text.
pub proof fn lemma_word(text: Seq<char>)
    ensures
        text::trimmed_start(text, Class::White).len() <= text.len(),
        text.skip(text.len() - text::trimmed_start(text, Class::White).len())
            == text::trimmed_start(text, Class::White),
        text::first_word(text).len() <= text::trimmed_start(text, Class::White).len(),
        text::trimmed_start(text, Class::White) == text::first_word(text)
            + text::after_first_word(text),
        text::first_word(text).len() == 0 ==> text::trimmed_start(text, Class::White).len() == 0,
{
    lemma_trimmed(text);
    let rest = text::trimmed_start(text, Class::White);
    text::lemma_until(rest, Class::White);
    assert(rest =~= text::first_word(text) + text::after_first_word(text));
}

/// Trimming takes away a beginning, and what is left begins with no white space.
proof fn lemma_trimmed(text: Seq<char>)
    ensures
        text::trimmed_start(text, Class::White).len() <= text.len(),
        text.skip(text.len() - text::trimmed_start(text, Class::White).len())
            == text::trimmed_start(text, Class::White),
        text::trimmed_start(text, Class::White).len() > 0 ==> !text::is_white(
            text::trimmed_start(text, Class::White)[0],
        ),
    decreases text.len(),
{
    if text.len() > 0 && text::is_white(text[0]) {
        lemma_trimmed(text.drop_first());
        let rest = text::trimmed_start(text.drop_first(), Class::White);
        assert(text.skip(text.len() - rest.len()) =~= text.drop_first().skip(
            text.drop_first().len() - rest.len(),
        ));
    } else {
        assert(text.skip(0) =~= text);
    }
}

/// Where the value begins in a word that assigns a credential.
fn value_start(word: &str, name: &str) -> (at: Option<usize>)
    ensures
        match assigned(word@, name@) {
            Some(wanted) => at matches Some(found) && found == wanted && found <= word@.len(),
            None => at is None,
        },
{
    let list = text::characters(&text::lower(word));
    let wanted = text::characters(name);
    assert(list.len() <= usize::MAX);
    proof {
        text::lemma_found_from(text::lowered(word@), name@, 0);
    }
    match text::locate(&list, &wanted, 0) {
        Some(at) => Some(at + wanted.len()),
        None => None,
    }
}

/// A word as it may be shown.
fn cover(word: &str, bearer: bool) -> (shown: String)
    ensures
        shown@ == covered(word@, bearer),
{
    if bearer {
        return REDACTED.to_owned();
    }
    let at: Option<usize> = match value_start(word, "token=") {
        Some(at) => Some(at),
        None => match value_start(word, "password=") {
            Some(at) => Some(at),
            None => value_start(word, "secret="),
        },
    };
    match at {
        Some(end) => {
            let list = text::characters(word);
            let front = text::text_of(&list, 0, end);
            assert(front@ =~= word@.take(end as int));
            text::join2(&front, REDACTED)
        },
        None => word.to_owned(),
    }
}

/// Replaces credentials by a placeholder: the word behind a bearer scheme, and
/// the value behind `token=`, `password=` and `secret=`.
pub fn redact_secrets(text: &str) -> (shown: String)
    ensures
        shown@ == redacted(text@, false),
{
    let mut shown = String::new();
    let mut bearer = false;
    let mut left = text.to_owned();
    assert(shown@ + redacted(left@, bearer) =~= redacted(text@, false));
    loop
        invariant
            shown@ + redacted(left@, bearer) == redacted(text@, false),
        decreases left@.len(),
    {
        let ghost before = left@;
        let ghost start = shown@;
        proof {
            lemma_word(before);
        }
        let (word, tail) = text::take_word(&left);
        if text::characters(&word).len() == 0 {
            shown.append(&left);
            return shown;
        }
        let all = text::characters(&left);
        let rest = text::characters(&text::trim_start(&left, Class::White));
        let gap = text::text_of(&all, 0, all.len() - rest.len());
        assert(gap@ =~= before.take(before.len() - rest@.len()));
        let piece = cover(&word, bearer);
        shown.append(&gap);
        shown.append(&piece);
        assert(start + redacted(before, bearer) =~= shown@ + redacted(
            text::after_first_word(before),
            text::lowered(word@) == "bearer"@,
        ));
        bearer = text::same(&text::lower(&word), "bearer");
        left = tail;
    }
}

/// Whether a text holds nothing to hide; `bearer` says whether the word before
/// it names the bearer scheme.
pub open spec fn harmless(text: Seq<char>, bearer: bool) -> bool
    decreases text.len(),
{
    let word = text::first_word(text);
    if word.len() == 0 {
        true
    } else {
        proof {
            lemma_word(text);
        }
        &&& !bearer
        &&& credential(word) is None
        &&& harmless(text::after_first_word(text), text::lowered(word) == "bearer"@)
    }
}

/// A text without credentials is shown as it is.
pub proof fn a_harmless_text_is_shown_as_it_is(text: Seq<char>, bearer: bool)
    requires
        harmless(text, bearer),
    ensures
        redacted(text, bearer) == text,
    decreases text.len(),
{
    let word = text::first_word(text);
    if word.len() > 0 {
        lemma_word(text);
        let rest = text::trimmed_start(text, Class::White);
        a_harmless_text_is_shown_as_it_is(
            text::after_first_word(text),
            text::lowered(word) == "bearer"@,
        );
        assert(text =~= text.take(text.len() - rest.len()) + rest);
        assert(redacted(text, bearer) =~= text);
    }
}

/// What may be shown of a text is what may be shown of its words, one after another,
/// with the white space between them as it is; the word behind a bearer scheme is
/// covered whatever it says.
pub proof fn a_text_is_shown_word_by_word(
    gap: Seq<char>,
    word: Seq<char>,
    rest: Seq<char>,
    bearer: bool,
)
    requires
        forall|i: int| 0 <= i < gap.len() ==> text::is_white(#[trigger] gap[i]),
        word.len() > 0,
        forall|i: int| 0 <= i < word.len() ==> !text::is_white(#[trigger] word[i]),
        rest.len() > 0 ==> text::is_white(rest[0]),
    ensures
        redacted(gap + word + rest, bearer) == gap + covered(word, bearer) + redacted(
            rest,
            text::lowered(word) == "bearer"@,
        ),
        covered(word, true) == "[REDACTED]"@,
        redacted(gap, bearer) == gap,
{
    let whole = gap + word + rest;
    text::a_word_that_stands_first_is_the_first_word(gap, word, rest);
    assert(whole.take(whole.len() - (word + rest).len()) =~= gap);
    lemma_trimmed(gap);
    let left = text::trimmed_start(gap, Class::White);
    if left.len() > 0 {
        assert(left[0] == gap[gap.len() - left.len()]);
    }
}

/// Where the first assignment of a name in a word ends.
proof fn lemma_assigned(before: Seq<char>, name: Seq<char>, value: Seq<char>)
    ensures
        ({
            let word = before + name + value;
            let wanted = text::lowered(name);
            &&& assigned(word, wanted) is Some
            &&& wanted.len() <= assigned(word, wanted)->0 <= before.len() + name.len()
        }),
{
    let word = before + name + value;
    let small = text::lowered(word);
    let wanted = text::lowered(name);
    let place = before.len() as int;
    assert(small.subrange(place, place + wanted.len()) =~= wanted);
    assert(text::occurs_at(small, wanted, place));
    text::lemma_found_from(small, wanted, 0);
}

/// A word without a text assigns nothing under it.
proof fn lemma_unassigned(word: Seq<char>, name: Seq<char>)
    ensures
        assigned(word, name) is None <==> !text::holds_text(text::lowered(word), name),
{
    let small = text::lowered(word);
    text::lemma_found_from(small, name, 0);
    match text::found_from(small, name, 0) {
        Some(at) => {
            assert(text::occurs_at(small, name, at));
        },
        None => {
            if text::holds_text(small, name) {
                let at = choose|at: int| text::occurs_at(small, name, at);
                assert(!text::occurs_at(small, name, at));
            }
        },
    }
}

/// Nothing of a token, a password or a secret is shown, however the name that
/// assigns it is capitalized: a word is shown at most up to the end of that name.
/// Where a word assigns several, the token is covered before the password and the
/// password before the secret; a word that assigns none is shown as it is.
pub proof fn an_assigned_credential_is_covered(
    before: Seq<char>,
    name: Seq<char>,
    value: Seq<char>,
    word: Seq<char>,
) -> (end: int)
    requires
        word == before + name + value,
    ensures
        ({
            let small = text::lowered(word);
            let token = text::holds_text(small, "token="@);
            let password = text::holds_text(small, "password="@);
            let secret = text::holds_text(small, "secret="@);
            let said = text::lowered(name);
            &&& said == "token="@ || !token && said == "password="@ || !token && !password && said
                == "secret="@ ==> name.len() <= end <= before.len() + name.len() && covered(
                word,
                false,
            ) == word.take(end) + "[REDACTED]"@
            &&& !token && !password && !secret ==> covered(word, false) == word
        }),
{
    lemma_assigned(before, name, value);
    lemma_unassigned(word, "token="@);
    lemma_unassigned(word, "password="@);
    lemma_unassigned(word, "secret="@);
    match credential(word) {
        Some(at) => at,
        None => 0,
    }
}

} // verus!
