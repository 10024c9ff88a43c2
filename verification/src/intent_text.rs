//! A keyword classifier that reads an intent out of a free-text request.
//!
//! The text is read in lower case. A *word* of the text is a run of ASCII
//! letters and digits that stands between characters of another kind, or
//! at an end of the text.

use vstd::prelude::*;
use crate::intent::{normalized, IntentModel, UiIntent};
use crate::text::{
    chars_of, contains, has_substring, is_ascii_alnum, lowered, matches_at, occurs_at, owned,
    char_is_ascii_alnum, starts_with, to_lowercase, views,
};

verus! {

/// `word` stands in `s` at position `at`, with no ASCII letter or digit
/// right before it or right after it.
pub open spec fn is_word_at(s: Seq<char>, word: Seq<char>, at: int) -> bool {
    &&& occurs_at(s, word, at)
    &&& at == 0 || !is_ascii_alnum(s[at - 1])
    &&& at + word.len() == s.len() || !is_ascii_alnum(s[at + word.len()])
}

/// `word` stands somewhere in `s` as a word of its own.
#[verifier::opaque]
pub open spec fn has_word(s: Seq<char>, word: Seq<char>) -> bool {
    exists|at: int| is_word_at(s, word, at)
}

/// Whether `word` stands somewhere in the text as a word of its own.
pub fn text_has_word(text: &Vec<char>, word: &str) -> (r: bool)
    ensures
        r == has_word(text@, word@),
{
    reveal(has_word);
    let w = chars_of(word);
    if w.len() > text.len() {
        assert forall|at: int| !is_word_at(text@, word@, at) by {}
        return false;
    }
    let last: usize = text.len() - w.len();
    let mut at: usize = 0;
    while at < last
        invariant
            w@ == word@,
            last == text@.len() - w@.len(),
            at <= last,
            forall|k: int| 0 <= k < at ==> !is_word_at(text@, word@, k),
        decreases last - at,
    {
        if word_at(text, &w, at) {
            reveal(has_word);
            return true;
        }
        at += 1;
    }
    let found = word_at(text, &w, last);
    if !found {
        assert forall|k: int| !is_word_at(text@, word@, k) by {}
    }
    found
}

/// Whether `word` stands in the text at position `at` as a word of its own.
fn word_at(text: &Vec<char>, word: &Vec<char>, at: usize) -> (r: bool)
    requires
        at + word@.len() <= text@.len(),
    ensures
        r == is_word_at(text@, word@, at as int),
{
    let text_len: usize = text.len();
    assert(at + word@.len() <= text_len);
    if !matches_at(text, word, at) {
        return false;
    }
    if at > 0 && char_is_ascii_alnum(text[at - 1]) {
        return false;
    }
    let end: usize = at + word.len();
    if end < text.len() && char_is_ascii_alnum(text[end]) {
        return false;
    }
    true
}

/// What a request is about.
#[derive(Debug, Clone, Copy, PartialEq, Eq, Structural)]
pub enum PrimaryKind {
    FileListing,
    PlanReview,
    UiDesignReview,
    CodeReview,
}

impl PrimaryKind {
    /// The primary category of intents of this kind.
    pub open spec fn name(self) -> Seq<char> {
        match self {
            PrimaryKind::FileListing => "file_listing"@,
            PrimaryKind::PlanReview => "plan_review"@,
            PrimaryKind::UiDesignReview => "ui_design_review"@,
            PrimaryKind::CodeReview => "code_review"@,
        }
    }

    /// The primary category of intents of this kind.
    pub fn as_str(&self) -> (r: &'static str)
        ensures
            r@ == self.name(),
    {
        match self {
            PrimaryKind::FileListing => "file_listing",
            PrimaryKind::PlanReview => "plan_review",
            PrimaryKind::UiDesignReview => "ui_design_review",
            PrimaryKind::CodeReview => "code_review",
        }
    }
}

/// The text names one of the phrases that ask for a listing of files.
pub open spec fn names_file_listing(t: Seq<char>) -> bool {
    ||| has_substring(t, "list files"@)
    ||| has_substring(t, "listing of files"@)
    ||| has_substring(t, "file tree"@)
    ||| has_substring(t, "directory tree"@)
    ||| has_substring(t, "show files"@)
    ||| has_substring(t, "show me files"@)
    ||| has_substring(t, "show the files"@)
    ||| has_substring(t, "all the files"@)
    ||| has_substring(t, "all files"@)
    ||| has_substring(t, "workspace files"@)
}

/// The text speaks of files.
pub open spec fn mentions_files(t: Seq<char>) -> bool {
    has_word(t, "file"@) || has_word(t, "files"@)
}

/// The text asks to see something.
pub open spec fn asks_to_see(t: Seq<char>) -> bool {
    ||| has_word(t, "show"@)
    ||| has_word(t, "list"@)
    ||| has_word(t, "display"@)
    ||| has_word(t, "browse"@)
    ||| has_word(t, "view"@)
    ||| occurs_at(t, "what files"@, 0)
}

/// The text speaks of a review of code.
pub open spec fn mentions_review(t: Seq<char>) -> bool {
    ||| has_word(t, "review"@)
    ||| has_word(t, "approve"@)
    ||| has_word(t, "reject"@)
    ||| has_word(t, "decline"@)
    ||| has_word(t, "spec"@)
    ||| has_word(t, "diff"@)
    ||| has_word(t, "patch"@)
    ||| has_word(t, "security"@)
}

/// What a lower-case text is about, if it asks for a panel at all. A
/// listing of files goes before a review of a plan, that before a review
/// of a UI design, and that before a review of code.
pub open spec fn primary_of(t: Seq<char>) -> Option<PrimaryKind> {
    if names_file_listing(t) || (mentions_files(t) && has_word(t, "canvas"@)) || (mentions_files(
        t,
    ) && has_word(t, "workspace"@) && asks_to_see(t)) {
        Some(PrimaryKind::FileListing)
    } else if has_word(t, "plan"@) || has_word(t, "roadmap"@) || has_word(t, "milestone"@) {
        Some(PrimaryKind::PlanReview)
    } else if has_word(t, "ui"@) && has_word(t, "design"@) {
        Some(PrimaryKind::UiDesignReview)
    } else if mentions_review(t) {
        Some(PrimaryKind::CodeReview)
    } else {
        None
    }
}

/// `list` with `term` added where `wanted` holds.
pub open spec fn add_if(list: Seq<Seq<char>>, wanted: bool, term: Seq<char>) -> Seq<Seq<char>> {
    if wanted {
        list.push(term)
    } else {
        list
    }
}

/// The operations that a lower-case text names, before they are brought
/// into normal form. A text that names none gets the operation that its
/// kind implies: a listing lists, a review of code reviews.
pub open spec fn operations_of(t: Seq<char>, kind: PrimaryKind) -> Seq<Seq<char>> {
    let listing = kind == PrimaryKind::FileListing;
    let a = add_if(Seq::empty(), has_word(t, "approve"@), "approve"@);
    let b = add_if(a, has_word(t, "reject"@) || has_word(t, "decline"@), "reject"@);
    let c = add_if(b, has_word(t, "revise"@) || has_word(t, "change"@), "revise"@);
    let d = add_if(c, listing && has_word(t, "browse"@), "browse"@);
    let e = add_if(d, listing && has_word(t, "view"@), "view"@);
    let f = add_if(
        e,
        listing && (has_word(t, "show"@) || has_word(t, "list"@) || has_word(t, "display"@)),
        "list"@,
    );
    if f.len() > 0 {
        f
    } else if listing {
        seq!["list"@]
    } else if kind == PrimaryKind::CodeReview {
        seq!["review"@]
    } else {
        f
    }
}

/// The tags that a lower-case text names, before they are brought into
/// normal form.
pub open spec fn tags_of(t: Seq<char>, kind: PrimaryKind) -> Seq<Seq<char>> {
    let listing = kind == PrimaryKind::FileListing;
    let a = add_if(Seq::empty(), has_word(t, "spec"@), "spec"@);
    let b = add_if(a, has_word(t, "diff"@) || has_word(t, "patch"@), "diff"@);
    let c = add_if(b, has_word(t, "security"@), "security"@);
    let d = add_if(c, has_word(t, "plan"@) || has_word(t, "roadmap"@), "plan"@);
    let e = add_if(d, listing, "files"@);
    let f = add_if(e, listing && has_word(t, "workspace"@), "workspace"@);
    add_if(f, listing && (has_word(t, "tree"@) || has_word(t, "directory"@)), "tree"@)
}

/// The intent that a text asks for, if it asks for a panel at all.
pub open spec fn intent_of(text: Seq<char>) -> Option<IntentModel> {
    let t = lowered(text);
    match primary_of(t) {
        Some(kind) => Some(
            IntentModel {
                primary: kind.name(),
                operations: normalized(operations_of(t, kind)),
                tags: normalized(tags_of(t, kind)),
            },
        ),
        None => None,
    }
}

/// Adds `term` to the list where `wanted` holds.
fn push_if(list: &mut Vec<String>, wanted: bool, term: &str)
    ensures
        views(final(list)@) == add_if(views(old(list)@), wanted, term@),
{
    if wanted {
        let ghost before = views(list@);
        list.push(owned(term));
        assert(views(list@) =~= before.push(term@));
    }
}

/// Whether the text names one of the phrases that ask for a listing of
/// files.
fn text_names_file_listing(lowered: &str) -> (r: bool)
    ensures
        r == names_file_listing(lowered@),
{
    contains(lowered, "list files") || contains(lowered, "listing of files") || contains(
        lowered,
        "file tree",
    ) || contains(lowered, "directory tree") || contains(lowered, "show files") || contains(
        lowered,
        "show me files",
    ) || contains(lowered, "show the files") || contains(lowered, "all the files") || contains(
        lowered,
        "all files",
    ) || contains(lowered, "workspace files")
}

/// What a lower-case text is about, if it asks for a panel at all.
fn classify(lowered: &str, t: &Vec<char>) -> (r: Option<PrimaryKind>)
    requires
        t@ == lowered@,
    ensures
        r == primary_of(lowered@),
{
    let files = text_has_word(t, "file") || text_has_word(t, "files");
    if text_names_file_listing(lowered) {
        return Some(PrimaryKind::FileListing);
    }
    if files && text_has_word(t, "canvas") {
        return Some(PrimaryKind::FileListing);
    }
    if files && text_has_word(t, "workspace") {
        let sees = text_has_word(t, "show") || text_has_word(t, "list") || text_has_word(
            t,
            "display",
        ) || text_has_word(t, "browse") || text_has_word(t, "view") || starts_with(
            lowered,
            "what files",
        );
        if sees {
            return Some(PrimaryKind::FileListing);
        }
    }
    if text_has_word(t, "plan") || text_has_word(t, "roadmap") || text_has_word(t, "milestone") {
        return Some(PrimaryKind::PlanReview);
    }
    if text_has_word(t, "ui") && text_has_word(t, "design") {
        return Some(PrimaryKind::UiDesignReview);
    }
    if text_has_word(t, "review") || text_has_word(t, "approve") || text_has_word(t, "reject")
        || text_has_word(t, "decline") || text_has_word(t, "spec") || text_has_word(t, "diff")
        || text_has_word(t, "patch") || text_has_word(t, "security") {
        return Some(PrimaryKind::CodeReview);
    }
    None
}

/// The operations that a lower-case text names.
fn operations_in(t: &Vec<char>, kind: PrimaryKind) -> (r: Vec<String>)
    ensures
        views(r@) == operations_of(t@, kind),
{
    let listing = match kind {
        PrimaryKind::FileListing => true,
        _ => false,
    };
    let mut operations: Vec<String> = Vec::new();
    assert(views(operations@) =~= Seq::<Seq<char>>::empty());
    push_if(&mut operations, text_has_word(t, "approve"), "approve");
    push_if(&mut operations, text_has_word(t, "reject") || text_has_word(t, "decline"), "reject");
    push_if(&mut operations, text_has_word(t, "revise") || text_has_word(t, "change"), "revise");
    push_if(&mut operations, listing && text_has_word(t, "browse"), "browse");
    push_if(&mut operations, listing && text_has_word(t, "view"), "view");
    push_if(
        &mut operations,
        listing && (text_has_word(t, "show") || text_has_word(t, "list") || text_has_word(
            t,
            "display",
        )),
        "list",
    );
    if operations.len() == 0 {
        match kind {
            PrimaryKind::FileListing => {
                operations.push(owned("list"));
                assert(views(operations@) =~= seq!["list"@]);
            },
            PrimaryKind::CodeReview => {
                operations.push(owned("review"));
                assert(views(operations@) =~= seq!["review"@]);
            },
            _ => {},
        }
    }
    operations
}

/// The tags that a lower-case text names.
fn tags_in(t: &Vec<char>, kind: PrimaryKind) -> (r: Vec<String>)
    ensures
        views(r@) == tags_of(t@, kind),
{
    let listing = match kind {
        PrimaryKind::FileListing => true,
        _ => false,
    };
    let mut tags: Vec<String> = Vec::new();
    assert(views(tags@) =~= Seq::<Seq<char>>::empty());
    push_if(&mut tags, text_has_word(t, "spec"), "spec");
    push_if(&mut tags, text_has_word(t, "diff") || text_has_word(t, "patch"), "diff");
    push_if(&mut tags, text_has_word(t, "security"), "security");
    push_if(&mut tags, text_has_word(t, "plan") || text_has_word(t, "roadmap"), "plan");
    push_if(&mut tags, listing, "files");
    push_if(&mut tags, listing && text_has_word(t, "workspace"), "workspace");
    push_if(
        &mut tags,
        listing && (text_has_word(t, "tree") || text_has_word(t, "directory")),
        "tree",
    );
    tags
}

/// Reads an intent out of a free-text request: what the request is about,
/// the operations it names and the tags it names. `None` for a text that
/// asks for no panel.
pub fn intent_from_text(text: &str) -> (r: Option<UiIntent>)
    ensures
        match r {
            Some(intent) => intent_of(text@) == Some(intent@) && intent.is_normal(),
            None => intent_of(text@).is_none(),
        },
{
    let lowered = to_lowercase(text);
    let t = chars_of(lowered.as_str());
    let kind = match classify(lowered.as_str(), &t) {
        Some(kind) => kind,
        None => {
            return None;
        },
    };
    let operations = operations_in(&t, kind);
    let tags = tags_in(&t, kind);
    Some(UiIntent::new(kind.as_str(), operations, tags))
}

} // verus!
