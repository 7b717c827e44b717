//! Package names and specifiers, as far as this application passes them on.
use vstd::prelude::*;
use vstd::utf8::encode_utf8;

use crate::text;
use crate::text::Class;

verus! {

/// A specifier split into a name and a version.
pub open spec fn split(spec: Seq<char>) -> (Seq<char>, Option<Seq<char>>) {
    let scoped: int = if text::begins(spec, "@"@) {
        1
    } else {
        0
    };
    match text::parted(spec.skip(scoped), '@') {
        Some((front, back)) => (spec.take(scoped) + front, Some(back)),
        None => (spec, None),
    }
}

/// Split `@scope/name@^1.2.3` at the separator that is not the scope marker.
pub fn split_spec(spec: &str) -> (parts: (String, Option<String>))
    ensures
        (parts.0@, text::seen(parts.1)) == split(spec@),
{
    let list = text::characters(spec);
    proof {
        reveal_strlit("@");
    }
    let scoped: usize = if text::starts_with(spec, "@") {
        1
    } else {
        0
    };
    let rest = text::text_of(&list, scoped, list.len());
    assert(rest@ =~= spec@.skip(scoped as int));
    match text::split_once(&rest, '@') {
        Some((front, back)) => {
            let head = text::text_of(&list, 0, scoped);
            assert(head@ =~= spec@.take(scoped as int));
            (text::join2(&head, &front), Some(back))
        },
        None => (spec.to_owned(), None),
    }
}

/// Whether a character may stand in a package name.
pub open spec fn name_character(character: char) -> bool {
    ||| 'a' <= character && character <= 'z'
    ||| '0' <= character && character <= '9'
    ||| character == '-'
    ||| character == '.'
    ||| character == '_'
}

/// Whether a text is one segment of a package name.
pub open spec fn name_segment(segment: Seq<char>) -> bool {
    &&& segment.len() > 0
    &&& encode_utf8(segment).len() <= 128
    &&& segment[0] != '.'
    &&& segment[0] != '_'
    &&& forall|i: int| 0 <= i < segment.len() ==> name_character(#[trigger] segment[i])
}

/// Whether a text is a package name: one segment, or a scope and one segment.
pub open spec fn package_name(name: Seq<char>) -> bool {
    match text::without_prefix(name, "@"@) {
        Some(scoped) => match text::parted(scoped, '/') {
            Some((scope, rest)) => name_segment(scope) && name_segment(rest),
            None => false,
        },
        None => name_segment(name),
    }
}

/// Whether a text is a package name, optionally with a version.
///
/// Everything here is spawned without a shell, so this is not about quoting. It
/// is about the one thing that would otherwise slip through: an argument
/// beginning with `-` is a flag to the package manager, not a package, and a
/// relative path spec would be resolved somewhere the user did not mean.
pub open spec fn package_spec(spec: Seq<char>) -> bool {
    &&& spec.len() > 0
    &&& encode_utf8(spec).len() <= 214
    &&& spec[0] != '-'
    &&& forall|i: int| 0 <= i < spec.len() ==> !text::is_white(#[trigger] spec[i])
    &&& split(spec).1 matches Some(range) ==> range.len() > 0 && !range.contains(':')
    &&& package_name(split(spec).0)
}

/// Whether a text is one segment of a package name.
pub fn is_name_segment(segment: &str) -> (answer: bool)
    ensures
        answer == name_segment(segment@),
{
    let list = text::characters(segment);
    if list.len() == 0 || text::byte_length(segment) > 128 {
        return false;
    }
    if list[0] == '.' || list[0] == '_' {
        return false;
    }
    let mut index: usize = 0;
    while index < list.len()
        invariant
            list@ == segment@,
            index <= list@.len(),
            forall|i: int| 0 <= i < index ==> name_character(#[trigger] segment@[i]),
        decreases list.len() - index,
    {
        let character = list[index];
        if !(('a' <= character && character <= 'z') || ('0' <= character && character <= '9')
            || character == '-' || character == '.' || character == '_') {
            assert(!name_character(segment@[index as int]));
            return false;
        }
        index += 1;
    }
    true
}

/// Whether a text is a package name.
pub fn is_package_name(name: &str) -> (answer: bool)
    ensures
        answer == package_name(name@),
{
    match text::strip_prefix(name, "@") {
        Some(scoped) => match text::split_once(&scoped, '/') {
            Some((scope, rest)) => is_name_segment(&scope) && is_name_segment(&rest),
            None => false,
        },
        None => is_name_segment(name),
    }
}

/// Whether a text is a package name, optionally with a version.
pub fn is_package_spec(spec: &str) -> (answer: bool)
    ensures
        answer == package_spec(spec@),
{
    let list = text::characters(spec);
    if list.len() == 0 || text::byte_length(spec) > 214 {
        return false;
    }
    if list[0] == '-' {
        return false;
    }
    let mut index: usize = 0;
    while index < list.len()
        invariant
            list@ == spec@,
            index <= list@.len(),
            forall|i: int| 0 <= i < index ==> !text::is_white(#[trigger] spec@[i]),
        decreases list.len() - index,
    {
        if text::white(list[index]) {
            assert(text::is_white(spec@[index as int]));
            return false;
        }
        index += 1;
    }
    let (name, version) = split_spec(spec);
    if let Some(range) = version {
        let characters = text::characters(&range);
        let end: usize = text::reach(&characters, Class::Is(':'), 0);
        proof {
            assert(range@.skip(0) =~= range@);
            text::lemma_until(range@, Class::Is(':'));
            if end < range@.len() {
                assert(range@[end as int] == ':');
            } else if range@.contains(':') {
                let at = choose|at: int| 0 <= at < range@.len() && range@[at] == ':';
                assert(Class::Is(':').covers(range@[at]));
            }
        }
        if characters.len() == 0 || end < characters.len() {
            return false;
        }
    }
    is_package_name(&name)
}

/// What this application passes to a package manager as a package is never read
/// as a flag, is one argument, does not begin as a path does, and asks for no
/// version behind another protocol.
pub proof fn an_accepted_spec_is_neither_a_flag_nor_a_path(spec: Seq<char>)
    requires
        package_spec(spec),
    ensures
        spec[0] != '-',
        spec[0] != '.',
        spec[0] != '/',
        forall|i: int| 0 <= i < spec.len() ==> !text::is_white(#[trigger] spec[i]),
        split(spec).1 matches Some(range) ==> !range.contains(':'),
{
    reveal_strlit("@");
    let name = split(spec).0;
    if text::begins(spec, "@"@) {
        assert(spec.take(1)[0] == '@');
        assert(spec[0] == '@');
    } else {
        assert(spec.skip(0) =~= spec);
        text::lemma_until(spec, Class::Is('@'));
        let front = text::until(spec, Class::Is('@'));
        match text::parted(spec, '@') {
            Some((start, _)) => {
                assert(spec.take(0) + start =~= start);
                assert(name == front);
            },
            None => {},
        }
        assert(!text::begins(name, "@"@)) by {
            if text::begins(name, "@"@) {
                assert(name.take(1)[0] == '@');
                assert(name[0] == spec[0]);
                assert(spec.take(1) =~= "@"@);
            }
        }
        assert(name_segment(name));
        assert(name[0] == spec[0]);
        assert(name_character(name[0]));
    }
}

/// A specifier is split behind the name, scoped or not, at the first separator that
/// is not the scope's own; a name alone asks for no version.
pub proof fn a_specifier_is_split_behind_its_name(name: Seq<char>, range: Seq<char>)
    requires
        !name.contains('@') || name.len() > 0 && name[0] == '@' && !name.skip(1).contains('@'),
    ensures
        name.len() > 0 ==> split(name + "@"@ + range) == (name, Some(range)),
        split(name) == (name, None::<Seq<char>>),
{
    reveal_strlit("@");
    let whole = name + "@"@ + range;
    let scoped: int = if name.len() > 0 && name[0] == '@' {
        1
    } else {
        0
    };
    let rest = name.skip(scoped);
    assert(!rest.contains('@')) by {
        if scoped == 0 {
            assert(rest =~= name);
            if name.contains('@') {
                assert(name[0] == '@');
            }
        }
    }
    text::parting_is_at_the_first_occurrence(rest, '@');
    assert(text::begins(name, "@"@) <==> scoped == 1) by {
        if name.len() > 0 {
            assert(name.take(1)[0] == name[0]);
            if name[0] == '@' {
                assert(name.take(1) =~= "@"@);
            }
        }
    }
    if name.len() > 0 {
        assert(whole[0] == name[0]);
        assert(text::begins(whole, "@"@) <==> scoped == 1) by {
            assert(whole.take(1)[0] == whole[0]);
            if whole[0] == '@' {
                assert(whole.take(1) =~= "@"@);
            }
        }
        let back = whole.skip(scoped);
        assert(back =~= rest + seq!['@'] + range);
        lemma_parted_there(rest, range);
        assert(whole.take(scoped) + rest =~= name);
    }
}

/// A text is parted where its front ends.
proof fn lemma_parted_there(front: Seq<char>, back: Seq<char>)
    requires
        !front.contains('@'),
    ensures
        text::parted(front + seq!['@'] + back, '@') == Some((front, back)),
{
    let whole = front + seq!['@'] + back;
    let class = Class::Is('@');
    assert forall|i: int| 0 <= i < front.len() implies !class.covers(#[trigger] whole[i]) by {
        assert(whole[i] == front[i]);
        assert(front.contains(front[i]));
    }
    assert(whole[front.len() as int] == '@');
    text::lemma_until_at(whole, class, front.len() as int);
    assert(whole.take(front.len() as int) =~= front);
    assert(whole.skip(front.len() as int + 1) =~= back);
}

/// A segment of a name is made of small letters, digits, hyphens, dots and
/// underscores, is not hidden by what it begins with, and is neither empty nor
/// longer than 128 bytes; every such text is one.
pub proof fn a_segment_of_a_name_is_plain(segment: Seq<char>, at: int)
    ensures
        name_segment(segment) ==> 0 < segment.len() && encode_utf8(segment).len() <= 128
            && segment[0] != '.' && segment[0] != '_',
        name_segment(segment) && 0 <= at < segment.len() ==> {
            &&& segment[at] != '/' && segment[at] != '@' && segment[at] != '\\' && segment[at]
                != ':' && segment[at] != ' '
            &&& !('A' <= segment[at] <= 'Z')
            &&& segment[at] < '{'
        },
        0 < segment.len() && encode_utf8(segment).len() <= 128 && segment[0] != '.' && segment[0]
            != '_' && (forall|i: int|
            0 <= i < segment.len() ==> 'a' <= (#[trigger] segment[i]) <= 'z' || '0' <= segment[i]
                <= '9' || segment[i] == '-' || segment[i] == '.' || segment[i] == '_')
            ==> name_segment(segment),
{
    if name_segment(segment) && 0 <= at < segment.len() {
        assert(name_character(segment[at]));
    }
}

/// A package name is one segment, or a scope and one segment behind it; every such
/// text is one, and a name holds at most one slash.
pub proof fn a_package_name_is_a_segment_or_two(first: Seq<char>, second: Seq<char>)
    requires
        name_segment(first),
        name_segment(second),
    ensures
        package_name(first),
        package_name("@"@ + first + "/"@ + second),
        !package_name("@"@ + first),
        !package_name(first + "/"@ + second),
{
    reveal_strlit("@");
    reveal_strlit("/");
    a_segment_of_a_name_is_plain(first, 0);
    assert(!text::begins(first, "@"@)) by {
        if text::begins(first, "@"@) {
            assert(first.take(1)[0] == first[0]);
        }
    }
    assert(!first.contains('/')) by {
        if first.contains('/') {
            let k = choose|k: int| 0 <= k < first.len() && first[k] == '/';
            a_segment_of_a_name_is_plain(first, k);
        }
    }
    let scoped = first + "/"@ + second;
    assert("@"@ + first + "/"@ + second =~= "@"@ + scoped);
    text::a_prefix_taken_away_can_be_put_back(scoped, "@"@, scoped);
    text::a_prefix_taken_away_can_be_put_back(first, "@"@, first);
    text::parting_is_at_the_first_occurrence(first, '/');
    let class = Class::Is('/');
    assert forall|i: int| 0 <= i < first.len() implies !class.covers(#[trigger] scoped[i]) by {
        assert(scoped[i] == first[i]);
        assert(first.contains(first[i]));
    }
    assert(scoped[first.len() as int] == '/');
    text::lemma_until_at(scoped, class, first.len() as int);
    assert(scoped.take(first.len() as int) =~= first);
    assert(scoped.skip(first.len() as int + 1) =~= second);
    assert(!text::begins(scoped, "@"@)) by {
        if text::begins(scoped, "@"@) {
            assert(scoped.take(1)[0] == scoped[0]);
            assert(scoped[0] == first[0]);
        }
    }
    if name_segment(scoped) {
        a_segment_of_a_name_is_plain(scoped, first.len() as int);
    }
}

/// Every package name that is short enough may be asked for, alone or with a
/// version that holds neither white space nor a protocol.
pub proof fn every_plain_package_may_be_asked_for(name: Seq<char>, range: Seq<char>)
    requires
        name_segment(name),
        name[0] != '-',
        range.len() > 0,
        !range.contains(':'),
        forall|i: int| 0 <= i < range.len() ==> !text::is_white(#[trigger] range[i]),
        encode_utf8(name + "@"@ + range).len() <= 214,
    ensures
        package_spec(name + "@"@ + range),
        encode_utf8(name).len() <= 214 && package_spec(name),
{
    reveal_strlit("@");
    let spec = name + "@"@ + range;
    assert(!name.contains('@')) by {
        if name.contains('@') {
            let k = choose|k: int| 0 <= k < name.len() && name[k] == '@';
            a_segment_of_a_name_is_plain(name, k);
        }
    }
    a_specifier_is_split_behind_its_name(name, range);
    a_package_name_is_a_segment_or_two(name, name);
    assert forall|i: int| 0 <= i < name.len() implies !text::is_white(#[trigger] name[i]) by {
        assert(name_character(name[i]));
    }
    assert forall|i: int| 0 <= i < spec.len() implies !text::is_white(#[trigger] spec[i]) by {
        if i < name.len() {
            assert(spec[i] == name[i]);
        } else if i > name.len() {
            assert(spec[i] == range[i - name.len() - 1]);
        }
    }
    assert(spec[0] == name[0]);
}

/// Every part of a package name is a plain segment: the whole name where it has no
/// scope, and both the scope and what follows the slash where it has one.
pub proof fn every_part_of_a_package_name_is_plain(name: Seq<char>)
    requires
        package_name(name),
    ensures
        !text::begins(name, "@"@) ==> name_segment(name),
        text::begins(name, "@"@) ==> (text::parted(name.skip(1), '/') matches Some((scope, rest))
            && name_segment(scope) && name_segment(rest) && name == "@"@ + scope + "/"@ + rest),
{
    reveal_strlit("@");
    reveal_strlit("/");
    text::a_prefix_taken_away_can_be_put_back(name, "@"@, name);
    if text::begins(name, "@"@) {
        let scoped = name.skip(1);
        assert(text::without_prefix(name, "@"@) == Some(scoped));
        text::parting_is_at_the_first_occurrence(scoped, '/');
        let (scope, rest) = text::parted(scoped, '/')->0;
        assert(name =~= "@"@ + scoped);
        assert("/"@ =~= seq!['/']);
        assert("@"@ + scope + "/"@ + rest =~= "@"@ + (scope + seq!['/'] + rest));
    }
}

} // verus!
