//! Qualification of the Harness directory picker.
//!
//! The picker that ships with the Harness is taught to use the system's own
//! folder dialog. Every change replaces one exact seam of the shipped client;
//! a client that no longer has a seam is refused, never rewritten broadly.
use vstd::prelude::*;

use crate::error::{Error, Fault};
use crate::text;

verus! {

pub const ARGUMENTS_FROM: &'static str = "function DirectoryBrowser({ open, listDirectory, createDirectory, onOpen, onClose, busy, t }) {";
pub const ARGUMENTS_TO: &'static str = "function DirectoryBrowser({ open, listDirectory, createDirectory, pickNativeDirectory, validateDirectory, onOpen, onClose, busy, t }) {";
pub const ARGUMENTS_LABEL: &'static str = "directory browser arguments";

pub const STATE_FROM: &'static str = "\t\t\tconst [createError, setCreateError] = (0, react.useState)(null);";
pub const STATE_TO: &'static str = "\t\t\tconst [createError, setCreateError] = (0, react.useState)(null);\n\t\t\tconst [nativePicking, setNativePicking] = (0, react.useState)(false);\n\t\t\tconst [validatingDirectory, setValidatingDirectory] = (0, react.useState)(false);";
pub const STATE_LABEL: &'static str = "directory browser native state";

pub const ACTIONS_FROM: &'static str = "\t\t\tconst parentInert = busy || folderDraft !== null;\n\t\t\tconst draftPending = pathDraft !== null;";
pub const ACTIONS_TO: &'static str = "\t\t\tconst parentInert = busy || folderDraft !== null || nativePicking || validatingDirectory;\n\t\t\tconst openDirectory = (path) => {\n\t\t\t\tif (validateDirectory === void 0) {\n\t\t\t\t\tonOpen(path);\n\t\t\t\t\treturn;\n\t\t\t\t}\n\t\t\t\tsetError(null);\n\t\t\t\tsetValidatingDirectory(true);\n\t\t\t\tvalidateDirectory(path).then((allowed) => {\n\t\t\t\t\tsetValidatingDirectory(false);\n\t\t\t\t\tif (allowed) onOpen(path);\n\t\t\t\t}, (reason) => {\n\t\t\t\t\tsetValidatingDirectory(false);\n\t\t\t\t\tsetError(failureText(reason));\n\t\t\t\t});\n\t\t\t};\n\t\t\tconst pickFromSystem = () => {\n\t\t\t\tif (pickNativeDirectory === void 0) return;\n\t\t\t\tsetError(null);\n\t\t\t\tsetNativePicking(true);\n\t\t\t\tpickNativeDirectory().then((path) => {\n\t\t\t\t\tsetNativePicking(false);\n\t\t\t\t\tif (path !== null) openDirectory(path);\n\t\t\t\t}, (reason) => {\n\t\t\t\t\tsetNativePicking(false);\n\t\t\t\t\tsetError(failureText(reason));\n\t\t\t\t});\n\t\t\t};\n\t\t\tconst draftPending = pathDraft !== null;";
pub const ACTIONS_LABEL: &'static str = "directory browser native actions";

pub const CLOSE_GUARD_FROM: &'static str = "\t\t\t\t\tif (folderDraft === null && !busy) onClose();";
pub const CLOSE_GUARD_TO: &'static str = "\t\t\t\t\tif (!parentInert) onClose();";
pub const CLOSE_GUARD_LABEL: &'static str = "directory browser close guard";

pub const BUTTON_FROM: &'static str = "\t\t\t\t\t\t\t\t(0, react_jsx_runtime.jsxs)(\"button\", {\n\t\t\t\t\t\t\t\t\ttype: \"button\",\n\t\t\t\t\t\t\t\t\tclassName: clsx(DirectoryBrowser_module_css_default.showHiddenToggle, showHidden && DirectoryBrowser_module_css_default.showHiddenToggleActive),";
pub const BUTTON_TO: &'static str = "\t\t\t\t\t\t\t\tpickNativeDirectory !== void 0 && (0, react_jsx_runtime.jsx)(_deepseek_ai_dsh_client_ui_primitives.Button, {\n\t\t\t\t\t\t\t\t\tvariant: \"outline\",\n\t\t\t\t\t\t\t\t\ticon: (0, react_jsx_runtime.jsx)(_deepseek_ai_dsh_client_ui_primitives.IconFolderOpen16, { size: 16 }),\n\t\t\t\t\t\t\t\t\tdisabled: parentInert,\n\t\t\t\t\t\t\t\t\tonClick: pickFromSystem,\n\t\t\t\t\t\t\t\t\tchildren: t(\"browser.nativePicker\")\n\t\t\t\t\t\t\t\t}),\n\t\t\t\t\t\t\t\t(0, react_jsx_runtime.jsxs)(\"button\", {\n\t\t\t\t\t\t\t\t\ttype: \"button\",\n\t\t\t\t\t\t\t\t\tclassName: clsx(DirectoryBrowser_module_css_default.showHiddenToggle, showHidden && DirectoryBrowser_module_css_default.showHiddenToggleActive),";
pub const BUTTON_LABEL: &'static str = "directory browser native button";

pub const VALIDATION_FROM: &'static str = "if (targetPath !== null) onOpen(targetPath);";
pub const VALIDATION_TO: &'static str = "if (targetPath !== null) openDirectory(targetPath);";
pub const VALIDATION_LABEL: &'static str = "directory browser open validation";

pub const PROPERTIES_FROM: &'static str = "\t\t\t\tcreateDirectory: props.createDirectory,\n\t\t\t\tt: props.t,";
pub const PROPERTIES_TO: &'static str = "\t\t\t\tcreateDirectory: props.createDirectory,\n\t\t\t\tpickNativeDirectory: props.pickNativeDirectory,\n\t\t\t\tvalidateDirectory: props.validateDirectory,\n\t\t\t\tt: props.t,";
pub const PROPERTIES_LABEL: &'static str = "browse flow native properties";

pub const CHINESE_COPY_FROM: &'static str = "\"browser.showHidden\": \"显示隐藏文件\"";
pub const CHINESE_COPY_TO: &'static str = "\"browser.showHidden\": \"显示隐藏文件\",\n\t\t\t\t\t\"browser.nativePicker\": \"使用系统选择文件夹\"";
pub const CHINESE_COPY_LABEL: &'static str = "Chinese directory picker copy";

pub const ENGLISH_COPY_FROM: &'static str = "\"browser.showHidden\": \"Show hidden files\"";
pub const ENGLISH_COPY_TO: &'static str = "\"browser.showHidden\": \"Show hidden files\",\n\t\t\t\t\t\"browser.nativePicker\": \"Choose with system dialog\"";
pub const ENGLISH_COPY_LABEL: &'static str = "English directory picker copy";

pub const INJECTION_HEAD: &'static str = "\t\t\t\tcreateDirectory: (path, name) => ctx.";
pub const INJECTION_FROM_TAIL: &'static str = ".createDirectory(path, name),\n\t\t\t\tt: ctx.locale.bind(LOCALE_NS)";
pub const INJECTION_TO_TAIL: &'static str = ".createDirectory(path, name),\n\t\t\t\tpickNativeDirectory: typeof window.__DSH_DESKTOP_PICK_DIRECTORY__ === \"function\" ? () => window.__DSH_DESKTOP_PICK_DIRECTORY__() : void 0,\n\t\t\t\tvalidateDirectory: typeof window.__DSH_DESKTOP_VALIDATE_DIRECTORY__ === \"function\" ? (path) => window.__DSH_DESKTOP_VALIDATE_DIRECTORY__(path) : void 0,\n\t\t\t\tt: ctx.locale.bind(LOCALE_NS)";
pub const INJECTION_LABEL: &'static str = "directory picker desktop injection";

/// What tells the newer workspace client from the older one.
pub const WORKSPACE_CLIENT: &'static str = "ctx.uiWorkspace.createDirectory(path, name)";

/// A client with one seam replaced: unchanged where the replacement already
/// stands in it exactly once, refused where the seam does not.
///
/// Qualification runs after every managed install and may also inspect an
/// already-qualified runtime recovered from an interrupted promotion. Some
/// replacements deliberately retain the seam inside themselves, so the
/// completed replacement is looked for first.
pub open spec fn replaced(
    body: Seq<char>,
    from: Seq<char>,
    to: Seq<char>,
    label: Seq<char>,
) -> Result<Seq<char>, Fault> {
    if text::times(body, to) == 1 {
        Ok(body)
    } else if text::times(body, from) != 1 {
        Err(
            Fault::Install(
                "the qualified Harness no longer has the expected "@ + label + " seam"@,
            ),
        )
    } else {
        Ok(text::replaced_first(body, from, to))
    }
}

/// Replaces one seam of a client.
pub fn replace_once(body: String, from: &str, to: &str, label: &str) -> (changed: Result<
    String,
    Error,
>)
    ensures
        match (changed, replaced(body@, from@, to@, label@)) {
            (Ok(result), Ok(wanted)) => result@ == wanted,
            (Err(error), Err(wanted)) => error@ == wanted,
            _ => false,
        },
{
    if text::stands_once(&body, to) {
        return Ok(body);
    }
    if !text::stands_once(&body, from) {
        return Err(
            Error::Install(
                text::join3(
                    "the qualified Harness no longer has the expected ",
                    label,
                    " seam",
                ),
            ),
        );
    }
    Ok(text::replace_first(&body, from, to))
}

/// Replacing a seam a second time changes nothing, wherever the replacement
/// stands once in what the first time gave.
pub proof fn replacing_twice_is_replacing_once(
    body: Seq<char>,
    from: Seq<char>,
    to: Seq<char>,
    label: Seq<char>,
)
    requires
        replaced(body, from, to, label) matches Ok(once) && text::times(once, to) == 1,
    ensures
        replaced(replaced(body, from, to, label)->Ok_0, from, to, label) == replaced(
            body,
            from,
            to,
            label,
        ),
{
}

/// A replaced seam leaves its replacement in the client.
pub proof fn a_replacement_is_there_afterwards(
    body: Seq<char>,
    from: Seq<char>,
    to: Seq<char>,
    label: Seq<char>,
)
    requires
        replaced(body, from, to, label) is Ok,
    ensures
        text::holds_text(replaced(body, from, to, label)->Ok_0, to),
{
    let result = replaced(body, from, to, label)->Ok_0;
    if to.len() == 0 {
        assert(result.subrange(0, 0) =~= to);
        assert(text::occurs_at(result, to, 0));
    } else if text::times(body, to) == 1 {
        text::lemma_found_from(body, to, 0);
    } else {
        text::lemma_found_from(body, from, 0);
        if from.len() == 0 {
            assert(text::occurs_at(body, from, 0)) by {
                assert(body.subrange(0, 0) =~= from);
            }
        }
        let at = text::found_from(body, from, 0)->0;
        assert(result.subrange(at, at + to.len()) =~= to);
        assert(text::occurs_at(result, to, at));
    }
}

/// One seam of the shipped client and what takes its place.
pub struct Seam {
    pub from: String,
    pub to: String,
    pub label: String,
}

impl View for Seam {
    type V = (Seq<char>, Seq<char>, Seq<char>);

    open spec fn view(&self) -> (Seq<char>, Seq<char>, Seq<char>) {
        (self.from@, self.to@, self.label@)
    }
}

impl Seam {
    /// A seam from its three texts.
    fn of(from: &str, to: &str, label: &str) -> (seam: Seam)
        ensures
            seam@ == (from@, to@, label@),
    {
        Seam { from: from.to_owned(), to: to.to_owned(), label: label.to_owned() }
    }
}

/// A list of seams by what they say.
pub open spec fn seamed(list: Seq<Seam>) -> Seq<(Seq<char>, Seq<char>, Seq<char>)> {
    Seq::new(list.len(), |i: int| list[i]@)
}

/// The seams every known client has.
pub open spec fn common_seams() -> Seq<(Seq<char>, Seq<char>, Seq<char>)> {
    seq![
        (ARGUMENTS_FROM@, ARGUMENTS_TO@, ARGUMENTS_LABEL@),
        (STATE_FROM@, STATE_TO@, STATE_LABEL@),
        (ACTIONS_FROM@, ACTIONS_TO@, ACTIONS_LABEL@),
        (CLOSE_GUARD_FROM@, CLOSE_GUARD_TO@, CLOSE_GUARD_LABEL@),
        (BUTTON_FROM@, BUTTON_TO@, BUTTON_LABEL@),
        (VALIDATION_FROM@, VALIDATION_TO@, VALIDATION_LABEL@),
        (PROPERTIES_FROM@, PROPERTIES_TO@, PROPERTIES_LABEL@),
        (CHINESE_COPY_FROM@, CHINESE_COPY_TO@, CHINESE_COPY_LABEL@),
        (ENGLISH_COPY_FROM@, ENGLISH_COPY_TO@, ENGLISH_COPY_LABEL@),
    ]
}

/// The seam through which the desktop reaches the picker, behind the workspace
/// client of that name.
pub open spec fn injection(service: Seq<char>) -> (Seq<char>, Seq<char>, Seq<char>) {
    (
        INJECTION_HEAD@ + service + INJECTION_FROM_TAIL@,
        INJECTION_HEAD@ + service + INJECTION_TO_TAIL@,
        INJECTION_LABEL@,
    )
}

/// The seams every known client has.
pub fn seams() -> (list: Vec<Seam>)
    ensures
        seamed(list@) == common_seams(),
{
    let mut list: Vec<Seam> = Vec::new();
    list.push(Seam::of(ARGUMENTS_FROM, ARGUMENTS_TO, ARGUMENTS_LABEL));
    list.push(Seam::of(STATE_FROM, STATE_TO, STATE_LABEL));
    list.push(Seam::of(ACTIONS_FROM, ACTIONS_TO, ACTIONS_LABEL));
    list.push(Seam::of(CLOSE_GUARD_FROM, CLOSE_GUARD_TO, CLOSE_GUARD_LABEL));
    list.push(Seam::of(BUTTON_FROM, BUTTON_TO, BUTTON_LABEL));
    list.push(Seam::of(VALIDATION_FROM, VALIDATION_TO, VALIDATION_LABEL));
    list.push(Seam::of(PROPERTIES_FROM, PROPERTIES_TO, PROPERTIES_LABEL));
    list.push(Seam::of(CHINESE_COPY_FROM, CHINESE_COPY_TO, CHINESE_COPY_LABEL));
    list.push(Seam::of(ENGLISH_COPY_FROM, ENGLISH_COPY_TO, ENGLISH_COPY_LABEL));
    assert(seamed(list@) =~= common_seams());
    list
}

/// A client with several seams replaced, one after another.
pub open spec fn patched(
    body: Seq<char>,
    list: Seq<(Seq<char>, Seq<char>, Seq<char>)>,
) -> Result<Seq<char>, Fault>
    decreases list.len(),
{
    if list.len() == 0 {
        Ok(body)
    } else {
        match replaced(body, list[0].0, list[0].1, list[0].2) {
            Ok(next) => patched(next, list.drop_first()),
            Err(fault) => Err(fault),
        }
    }
}

/// The seams of a client: the common ones, and the injection behind whichever
/// workspace client the common ones leave in place.
pub open spec fn qualified(body: Seq<char>) -> Result<Seq<char>, Fault> {
    match patched(body, common_seams()) {
        Ok(next) => {
            let seam = injection(
                if text::holds_text(next, WORKSPACE_CLIENT@) {
                    "uiWorkspace"@
                } else {
                    "workspaces"@
                },
            );
            replaced(next, seam.0, seam.1, seam.2)
        },
        Err(fault) => Err(fault),
    }
}

/// Replaces several seams, one after another.
fn patch(body: String, list: &Vec<Seam>) -> (changed: Result<String, Error>)
    ensures
        match (changed, patched(body@, seamed(list@))) {
            (Ok(result), Ok(wanted)) => result@ == wanted,
            (Err(error), Err(wanted)) => error@ == wanted,
            _ => false,
        },
{
    let ghost all = seamed(list@);
    let ghost start = body@;
    let mut current = body;
    let mut index: usize = 0;
    assert(all.skip(0) =~= all);
    while index < list.len()
        invariant
            index <= list@.len(),
            all == seamed(list@),
            start == body@,
            patched(start, all) == patched(current@, all.skip(index as int)),
        decreases list.len() - index,
    {
        let seam = &list[index];
        assert(all.skip(index as int)[0] == seam@);
        assert(all.skip(index as int).drop_first() =~= all.skip(index + 1));
        match replace_once(current, &seam.from, &seam.to, &seam.label) {
            Ok(next) => {
                current = next;
            },
            Err(error) => {
                return Err(error);
            },
        }
        index += 1;
    }
    Ok(current)
}

/// Teaches the shipped client to use the system's own folder dialog.
pub fn qualify(body: String) -> (changed: Result<String, Error>)
    ensures
        match (changed, qualified(body@)) {
            (Ok(result), Ok(wanted)) => result@ == wanted,
            (Err(error), Err(wanted)) => error@ == wanted,
            _ => false,
        },
{
    let current = match patch(body, &seams()) {
        Ok(current) => current,
        Err(error) => {
            return Err(error);
        },
    };
    // Newer Harness moved the workspace client behind uiWorkspace. Keep the
    // exact seam check for both known interfaces instead of a broad rewrite.
    let service = if text::contains(&current, WORKSPACE_CLIENT) {
        "uiWorkspace"
    } else {
        "workspaces"
    };
    replace_once(
        current,
        &text::join3(INJECTION_HEAD, service, INJECTION_FROM_TAIL),
        &text::join3(INJECTION_HEAD, service, INJECTION_TO_TAIL),
        INJECTION_LABEL,
    )
}

/// Whether every replacement stands in a client exactly once.
pub open spec fn settled(body: Seq<char>) -> bool {
    let seam = injection(
        if text::holds_text(body, WORKSPACE_CLIENT@) {
            "uiWorkspace"@
        } else {
            "workspaces"@
        },
    );
    &&& forall|i: int|
        0 <= i < common_seams().len() ==> text::times(body, (#[trigger] common_seams()[i]).1) == 1
    &&& text::times(body, seam.1) == 1
}

/// Where every replacement already stands exactly once, replacing changes nothing.
proof fn lemma_patched_again(body: Seq<char>, list: Seq<(Seq<char>, Seq<char>, Seq<char>)>)
    requires
        forall|i: int| 0 <= i < list.len() ==> text::times(body, (#[trigger] list[i]).1) == 1,
    ensures
        patched(body, list) == Ok::<Seq<char>, Fault>(body),
    decreases list.len(),
{
    if list.len() > 0 {
        assert(text::times(body, list[0].1) == 1);
        assert forall|i: int| 0 <= i < list.drop_first().len() implies text::times(
            body,
            (#[trigger] list.drop_first()[i]).1,
        ) == 1 by {
            assert(list.drop_first()[i] == list[i + 1]);
        }
        lemma_patched_again(body, list.drop_first());
    }
}

/// Qualifying a client that is already qualified leaves it as it is.
pub proof fn a_qualified_client_stays_as_it_is(body: Seq<char>)
    requires
        settled(body),
    ensures
        qualified(body) == Ok::<Seq<char>, Fault>(body),
{
    lemma_patched_again(body, common_seams());
}

/// Qualifying a client twice gives what qualifying it once gave, wherever each
/// replacement stands exactly once in that.
pub proof fn qualifying_twice_is_qualifying_once(body: Seq<char>)
    requires
        qualified(body) matches Ok(once) && settled(once),
    ensures
        qualified(qualified(body)->Ok_0) == qualified(body),
{
    a_qualified_client_stays_as_it_is(qualified(body)->Ok_0);
}

/// A seam that stands in a client exactly once gives way to its replacement, and
/// everything before and behind it stays as it is.
pub proof fn a_seam_gives_way_to_its_replacement(
    body: Seq<char>,
    from: Seq<char>,
    to: Seq<char>,
    label: Seq<char>,
    at: int,
)
    requires
        from.len() > 0,
        text::occurs_at(body, from, at),
        forall|other: int| #[trigger] text::occurs_at(body, from, other) ==> other == at,
        !text::holds_text(body, to),
    ensures
        replaced(body, from, to, label) == Ok::<Seq<char>, Fault>(
            body.take(at) + to + body.skip(at + from.len()),
        ),
{
    text::standing_once_is_standing_at_one_place(body, from);
    if to.len() == 0 {
        assert(body.subrange(0, 0) =~= to);
        assert(text::occurs_at(body, to, 0));
    } else {
        text::standing_once_is_standing_at_one_place(body, to);
    }
    text::replacing_changes_the_first_occurrence_alone(body, from, to, at);
}

/// A client that has neither a seam nor its replacement is refused, and what is said
/// names the seam; a client in which the replacement already stands stays as it is.
pub proof fn a_client_without_a_seam_is_refused(
    body: Seq<char>,
    from: Seq<char>,
    to: Seq<char>,
    label: Seq<char>,
    at: int,
)
    requires
        from.len() > 0,
        to.len() > 0,
    ensures
        !text::holds_text(body, from) && !text::holds_text(body, to) ==> (replaced(
            body,
            from,
            to,
            label,
        ) matches Err(Fault::Install(said)) && text::holds_text(said, label)),
        text::occurs_at(body, to, at) && (forall|other: int| #[trigger]
            text::occurs_at(body, to, other) ==> other == at) ==> replaced(body, from, to, label)
            == Ok::<Seq<char>, Fault>(body),
{
    text::standing_once_is_standing_at_one_place(body, from);
    text::standing_once_is_standing_at_one_place(body, to);
    text::lemma_holds_between(
        "the qualified Harness no longer has the expected "@,
        label,
        " seam"@,
    );
}

/// Every common seam is replaced, in order: a client that passes the first of them
/// and is refused at a later one is refused with what the later one says.
pub proof fn seams_are_replaced_one_after_another(
    body: Seq<char>,
    first: Seq<(Seq<char>, Seq<char>, Seq<char>)>,
    second: Seq<(Seq<char>, Seq<char>, Seq<char>)>,
)
    ensures
        patched(body, first + second) == (match patched(body, first) {
            Ok(next) => patched(next, second),
            Err(fault) => Err(fault),
        }),
        patched(body, Seq::empty()) == Ok::<Seq<char>, Fault>(body),
    decreases first.len(),
{
    if first.len() == 0 {
        assert(first + second =~= second);
    } else {
        assert((first + second)[0] == first[0]);
        assert((first + second).drop_first() =~= first.drop_first() + second);
        if let Ok(next) = replaced(body, first[0].0, first[0].1, first[0].2) {
            seams_are_replaced_one_after_another(next, first.drop_first(), second);
        }
    }
}

/// A text that stands in a text that stands in a third one stands in the third one.
proof fn lemma_holds_part(whole: Seq<char>, middle: Seq<char>, part: Seq<char>)
    requires
        text::holds_text(whole, middle),
        text::holds_text(middle, part),
    ensures
        text::holds_text(whole, part),
{
    let outer = choose|at: int| text::occurs_at(whole, middle, at);
    let inner = choose|at: int| text::occurs_at(middle, part, at);
    assert(whole.subrange(outer + inner, outer + inner + part.len()) =~= middle.subrange(
        inner,
        inner + part.len(),
    ));
    assert(text::occurs_at(whole, part, outer + inner));
}

/// A qualified client hands the picker the desktop's own dialog, through the
/// workspace client that it has.
pub proof fn a_qualified_client_reaches_the_desktop(body: Seq<char>)
    requires
        qualified(body) is Ok,
    ensures
        ({
            let client = qualified(body)->Ok_0;
            let next = patched(body, common_seams())->Ok_0;
            &&& patched(body, common_seams()) is Ok
            &&& text::holds_text(client, INJECTION_TO_TAIL@)
            &&& text::holds_text(next, "ctx.uiWorkspace.createDirectory(path, name)"@)
                ==> text::holds_text(client, INJECTION_HEAD@ + "uiWorkspace"@ + INJECTION_TO_TAIL@)
            &&& !text::holds_text(next, "ctx.uiWorkspace.createDirectory(path, name)"@)
                ==> text::holds_text(client, INJECTION_HEAD@ + "workspaces"@ + INJECTION_TO_TAIL@)
        }),
{
    let client = qualified(body)->Ok_0;
    let next = patched(body, common_seams())->Ok_0;
    let service = if text::holds_text(next, WORKSPACE_CLIENT@) {
        "uiWorkspace"@
    } else {
        "workspaces"@
    };
    let seam = injection(service);
    a_replacement_is_there_afterwards(next, seam.0, seam.1, seam.2);
    let none = Seq::<char>::empty();
    text::lemma_holds_between(INJECTION_HEAD@ + service, INJECTION_TO_TAIL@, none);
    assert(INJECTION_HEAD@ + service + INJECTION_TO_TAIL@ + none =~= seam.1);
    lemma_holds_part(client, seam.1, INJECTION_TO_TAIL@);
}

/// Every seam of a client is looked for, and none but these: nine that every known
/// client has, each under a name of its own.
pub proof fn every_known_seam_is_looked_for(at: int)
    ensures
        common_seams().len() == 9,
        0 <= at < 9 ==> ({
            let seam = common_seams()[at];
            seam == (
                (ARGUMENTS_FROM@, ARGUMENTS_TO@, "directory browser arguments"@)
            ) || seam == ((STATE_FROM@, STATE_TO@, "directory browser native state"@)) || seam == (
                (ACTIONS_FROM@, ACTIONS_TO@, "directory browser native actions"@)
            ) || seam == (
                (CLOSE_GUARD_FROM@, CLOSE_GUARD_TO@, "directory browser close guard"@)
            ) || seam == ((BUTTON_FROM@, BUTTON_TO@, "directory browser native button"@)) || seam
                == ((VALIDATION_FROM@, VALIDATION_TO@, "directory browser open validation"@))
                || seam == ((PROPERTIES_FROM@, PROPERTIES_TO@, "browse flow native properties"@))
                || seam == (
                (CHINESE_COPY_FROM@, CHINESE_COPY_TO@, "Chinese directory picker copy"@)
            ) || seam == ((ENGLISH_COPY_FROM@, ENGLISH_COPY_TO@, "English directory picker copy"@))
        }),
{
}

} // verus!
