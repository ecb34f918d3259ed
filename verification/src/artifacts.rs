//! Rendering tabs to files: which tabs are asked for, and what their files are called.

use vstd::prelude::*;

use crate::model::Tab;
use crate::text;

verus! {

/// The lower-case form of a text, by the rules of Unicode.
pub uninterp spec fn lowercase(s: Seq<char>) -> Seq<char>;

/// Has `str::to_lowercase` give the lower-case form of a text. Claimed of it: the same text always
/// has the same lower-case form, and that of an ASCII text is the text with its letters in lower
/// case. What the form of other texts is, is left to Unicode's tables.
#[verifier::external_body]
fn to_lowercase(s: &str) -> (r: String)
    ensures
        r@ == lowercase(s@),
        text::is_ascii(s@) ==> r@ == text::ascii_lowered(s@),
{
    s.to_lowercase()
}

/// What the files of a tab are called.
pub open spec fn basename_of(tab: Tab) -> Seq<char> {
    "tab_"@ + tab.token_text()
}

/// Names the files of a tab.
pub fn artifact_basename(tab: Tab) -> (r: String)
    ensures
        r@ == basename_of(tab),
{
    text::join2("tab_", tab.token())
}

/// Whether a text asks for a tab: by its label or its token, whatever the case of their letters, or
/// by the name of its files. `lowered` is the lower-case form of the text.
pub open spec fn asks_for(raw: Seq<char>, lowered: Seq<char>, tab: Tab) -> bool {
    ||| text::same_ignoring_ascii_case(tab.label_text(), raw)
    ||| text::same_ignoring_ascii_case(tab.token_text(), raw)
    ||| basename_of(tab) == lowered
}

/// The first tab, in the order of the tab bar, that a text asks for.
pub open spec fn asked_tab(raw: Seq<char>, lowered: Seq<char>) -> Option<Tab> {
    if asks_for(raw, lowered, Tab::Playback) {
        Some(Tab::Playback)
    } else if asks_for(raw, lowered, Tab::Recording) {
        Some(Tab::Recording)
    } else if asks_for(raw, lowered, Tab::Outputs) {
        Some(Tab::Outputs)
    } else if asks_for(raw, lowered, Tab::Inputs) {
        Some(Tab::Inputs)
    } else if asks_for(raw, lowered, Tab::Configuration) {
        Some(Tab::Configuration)
    } else {
        None
    }
}

fn is_asked(raw: &str, lowered: &str, tab: Tab) -> (r: bool)
    ensures
        r == asks_for(raw@, lowered@, tab),
{
    let basename = artifact_basename(tab);
    text::eq_ignore_ascii_case(tab.label(), raw) || text::eq_ignore_ascii_case(tab.token(), raw)
        || text::text_eq(basename.as_str(), lowered)
}

/// Finds the tab that a text asks for, given its lower-case form.
pub fn find_tab(raw: &str, lowered: &str) -> (r: Option<Tab>)
    ensures
        r == asked_tab(raw@, lowered@),
{
    if is_asked(raw, lowered, Tab::Playback) {
        Some(Tab::Playback)
    } else if is_asked(raw, lowered, Tab::Recording) {
        Some(Tab::Recording)
    } else if is_asked(raw, lowered, Tab::Outputs) {
        Some(Tab::Outputs)
    } else if is_asked(raw, lowered, Tab::Inputs) {
        Some(Tab::Inputs)
    } else if is_asked(raw, lowered, Tab::Configuration) {
        Some(Tab::Configuration)
    } else {
        None
    }
}

/// Finds the tab that a text asks for.
pub fn parse_tab(raw: &str) -> (r: Option<Tab>)
    ensures
        r == asked_tab(raw@, lowercase(raw@)),
        text::is_ascii(raw@) ==> r == asked_tab(raw@, text::ascii_lowered(raw@)),
{
    let lowered = to_lowercase(raw);
    find_tab(raw, lowered.as_str())
}

/// The values of texts.
pub open spec fn text_list(list: Seq<String>) -> Seq<Seq<char>> {
    list.map_values(|s: String| s@)
}

/// Whether every text asks for a tab.
pub open spec fn all_known(list: Seq<Seq<char>>) -> bool {
    forall|i: int| 0 <= i < list.len() ==> asked_tab(#[trigger] list[i], lowercase(list[i])) is Some
}

/// The tabs that arguments ask for, in their order; every tab when there are none.
pub open spec fn tabs_for(list: Seq<Seq<char>>) -> Seq<Tab> {
    if list.len() == 0 {
        Tab::ALL@
    } else {
        list.map_values(|raw: Seq<char>| asked_tab(raw, lowercase(raw))->0)
    }
}

/// Finds the tabs that arguments ask for. The error is the position of the first argument that asks
/// for none.
pub fn requested_tabs(args: &Vec<String>) -> (r: Result<Vec<Tab>, usize>)
    ensures
        match r {
            Ok(tabs) => all_known(text_list(args@)) && tabs@ == tabs_for(text_list(args@)),
            Err(i) => i < args@.len() && asked_tab(
                args@[i as int]@,
                lowercase(args@[i as int]@),
            ) is None && all_known(text_list(args@).take(i as int)),
        },
{
    let ghost list = text_list(args@);
    let mut tabs: Vec<Tab> = Vec::new();
    if args.len() == 0 {
        let mut k: usize = 0;
        while k < Tab::ALL.len()
            invariant
                k <= Tab::ALL@.len(),
                tabs@ =~= Tab::ALL@.take(k as int),
            decreases Tab::ALL@.len() - k,
        {
            tabs.push(Tab::ALL[k]);
            k += 1;
        }
        assert(tabs@ =~= Tab::ALL@);
        return Ok(tabs);
    }
    let mut i: usize = 0;
    while i < args.len()
        invariant
            i <= args@.len(),
            list == text_list(args@),
            tabs@.len() == i,
            forall|j: int|
                0 <= j < i ==> asked_tab(#[trigger] list[j], lowercase(list[j])) == Some(tabs@[j]),
        decreases args@.len() - i,
    {
        assert(list[i as int] == args@[i as int]@);
        match parse_tab(args[i].as_str()) {
            Some(tab) => tabs.push(tab),
            None => {
                assert(all_known(list.take(i as int)));
                return Err(i);
            },
        }
        i += 1;
    }
    assert(tabs@ =~= tabs_for(list));
    Ok(tabs)
}

/// Whether a text is a name of a tab but for the case of its letters: its label, its token or the
/// name of its files.
pub open spec fn is_name_of(raw: Seq<char>, tab: Tab) -> bool {
    ||| text::same_ignoring_ascii_case(tab.label_text(), raw)
    ||| text::same_ignoring_ascii_case(tab.token_text(), raw)
    ||| text::same_ignoring_ascii_case(basename_of(tab), raw)
}

/// Every tab is asked for by each of its names, in any mix of upper and lower case, and by nothing
/// else: an ASCII text asks for the tab that it is a name of, and for none when it is no name.
pub proof fn lemma_names_ask_for_their_tab(raw: Seq<char>, tab: Tab)
    ensures
        asked_tab(raw, text::ascii_lowered(raw)) == Some(tab) <==> is_name_of(raw, tab),
{
    lemma_asking_is_naming(raw, Tab::Playback);
    lemma_asking_is_naming(raw, Tab::Recording);
    lemma_asking_is_naming(raw, Tab::Outputs);
    lemma_asking_is_naming(raw, Tab::Inputs);
    lemma_asking_is_naming(raw, Tab::Configuration);
    lemma_names_differ(raw, tab, Tab::Playback);
    lemma_names_differ(raw, tab, Tab::Recording);
    lemma_names_differ(raw, tab, Tab::Outputs);
    lemma_names_differ(raw, tab, Tab::Inputs);
    lemma_names_differ(raw, tab, Tab::Configuration);
}

proof fn lemma_asking_is_naming(raw: Seq<char>, tab: Tab)
    ensures
        asks_for(raw, text::ascii_lowered(raw), tab) == is_name_of(raw, tab),
{
    let name = basename_of(tab);
    lemma_spelling(tab);
    if text::same_ignoring_ascii_case(name, raw) {
        assert forall|i: int| 0 <= i < raw.len() implies text::ascii_lowered(raw)[i] == name[i] by {
            assert(text::ascii_lower(name[i]) == text::ascii_lower(raw[i]));
        }
        assert(text::ascii_lowered(raw) =~= name);
    }
    if name == text::ascii_lowered(raw) {
        assert forall|i: int| 0 <= i < name.len() implies text::ascii_lower(#[trigger] name[i])
            == text::ascii_lower(raw[i]) by {
            assert(text::ascii_lowered(raw)[i] == text::ascii_lower(raw[i]));
        }
    }
}

/// No two tabs share a name.
proof fn lemma_names_differ(raw: Seq<char>, tab: Tab, other: Tab)
    ensures
        is_name_of(raw, tab) && is_name_of(raw, other) ==> tab == other,
{
    lemma_spelling(tab);
    lemma_spelling(other);
    if is_name_of(raw, tab) && is_name_of(raw, other) {
        let first = text::ascii_lower(raw[0]);
        assert(first == 't' || first == tab.token_text()[0]);
        assert(first == 't' || first == other.token_text()[0]);
    }
}

/// How long the names of a tab are, and what they begin with.
proof fn lemma_spelling(tab: Tab)
    ensures
        tab.label_text().len() == match tab {
            Tab::Playback => 8,
            Tab::Recording => 9,
            Tab::Outputs => 14,
            Tab::Inputs => 13,
            Tab::Configuration => 13int,
        },
        tab.token_text().len() == match tab {
            Tab::Playback => 8,
            Tab::Recording => 9,
            Tab::Outputs => 7,
            Tab::Inputs => 6,
            Tab::Configuration => 13int,
        },
        basename_of(tab).len() == tab.token_text().len() + 4,
        text::ascii_lower(tab.label_text()[0]) == tab.token_text()[0],
        tab.token_text()[0] == match tab {
            Tab::Playback => 'p',
            Tab::Recording => 'r',
            Tab::Outputs => 'o',
            Tab::Inputs => 'i',
            Tab::Configuration => 'c',
        },
        basename_of(tab)[0] == 't',
        forall|i: int|
            0 <= i < basename_of(tab).len() ==> text::ascii_lower(#[trigger] basename_of(tab)[i])
                == basename_of(tab)[i],
{
    reveal_strlit("tab_");
    reveal_strlit("Playback");
    reveal_strlit("Recording");
    reveal_strlit("Output Devices");
    reveal_strlit("Input Devices");
    reveal_strlit("Configuration");
    reveal_strlit("playback");
    reveal_strlit("recording");
    reveal_strlit("outputs");
    reveal_strlit("inputs");
    reveal_strlit("configuration");
}

/// Arguments ask for their tabs in their order, each by any of its names, and no argument at all asks
/// for every tab.
pub proof fn lemma_tabs_are_asked_for_in_order(list: Seq<Seq<char>>, i: int, tab: Tab)
    requires
        0 <= i < list.len(),
        lowercase(list[i]) == text::ascii_lowered(list[i]),
        is_name_of(list[i], tab),
    ensures
        tabs_for(list).len() == list.len(),
        tabs_for(list)[i] == tab,
        tabs_for(Seq::empty()).len() == 5,
{
    lemma_names_ask_for_their_tab(list[i], tab);
}

} // verus!
