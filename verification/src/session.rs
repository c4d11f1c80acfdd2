//! What the engine answers to a key, and what the host is told of it.

use vstd::prelude::*;
use vstd::string::*;

use crate::text;
use crate::text::{c_text_of, has_nul, same};

verus! {

/// A candidate of the current page.
#[derive(Debug)]
pub struct Candidate {
    /// The text to show.
    pub text: String,
    /// The remark beside it.
    pub comment: String,
    /// The text to commit, where it differs from the text to show.
    pub commit_override: Option<String>,
}

/// The state of the engine's session.
#[derive(Debug)]
pub struct SessionState {
    pub raw: String,
    pub preedit: String,
    pub aux: String,
    pub candidates: Vec<Candidate>,
    /// The highlighted candidate of the page.
    pub selected: usize,
    pub chinese: bool,
}

/// What a key did.
#[derive(Debug)]
pub struct KeyOutcome {
    /// The host need not handle the key any more.
    pub consumed: bool,
    /// The text to commit.
    pub commit: Option<String>,
    /// How many committed characters go before the commit.
    pub back: u8,
    pub state: Option<SessionState>,
    /// The tag of the sound to play.
    pub sound: Option<String>,
}

/// What a candidate says.
pub struct CandidateView {
    pub text: Seq<char>,
    pub comment: Seq<char>,
    pub commit: Seq<char>,
}

/// What a session state says.
pub struct StateView {
    pub raw: Seq<char>,
    pub preedit: Seq<char>,
    pub aux: Seq<char>,
    pub candidates: Seq<CandidateView>,
    pub selected: usize,
    pub chinese: bool,
}

/// The words that stand in the place of a commit and ask for a function.
pub open spec fn function_word(s: Seq<char>) -> bool {
    s == "{加词}"@ || s == "{隐藏候选}"@
}

impl View for Candidate {
    type V = CandidateView;

    open spec fn view(&self) -> CandidateView {
        CandidateView {
            text: self.text@,
            comment: self.comment@,
            commit: match self.commit_override {
                Some(s) => s@,
                None => self.text@,
            },
        }
    }
}

impl Candidate {
    /// The text that choosing this candidate commits.
    pub fn commit_text(&self) -> (r: &str)
        ensures
            r@ == self@.commit,
    {
        match &self.commit_override {
            Some(s) => s.as_str(),
            None => self.text.as_str(),
        }
    }
}

impl View for SessionState {
    type V = StateView;

    open spec fn view(&self) -> StateView {
        StateView {
            raw: self.raw@,
            preedit: self.preedit@,
            aux: self.aux@,
            candidates: Seq::new(self.candidates@.len(), |i: int| self.candidates@[i]@),
            selected: self.selected,
            chinese: self.chinese,
        }
    }
}

/// The state of a session of which nothing is known.
pub open spec fn empty_state() -> StateView {
    StateView {
        raw: seq![],
        preedit: seq![],
        aux: seq![],
        candidates: seq![],
        selected: 0,
        chinese: false,
    }
}

impl Default for SessionState {
    fn default() -> (r: SessionState)
        ensures
            r@ == empty_state(),
            r@.raw.len() == 0 && r@.preedit.len() == 0 && r@.aux.len() == 0,
            r@.candidates.len() == 0,
            r@.selected == 0,
            !r@.chinese,
    {
        let r = SessionState {
            raw: String::new(),
            preedit: String::new(),
            aux: String::new(),
            candidates: Vec::new(),
            selected: 0,
            chinese: false,
        };
        assert(r@.candidates =~= seq![]);
        assert(r@.raw =~= seq![]);
        r
    }
}

/// What the host is told of the panel.
#[derive(Debug)]
pub struct PanelUpdate {
    /// The text in composition.
    pub preedit: String,
    /// The typed keys. Empty together with candidates: the panel is to be cleared.
    pub raw: String,
    pub aux: String,
    /// The candidates' texts, remarks and texts to commit: three lists of one length.
    pub texts: Vec<String>,
    pub comments: Vec<String>,
    pub commits: Vec<String>,
    pub selected: usize,
    pub chinese: bool,
}

/// What the host is told after a key.
#[derive(Debug)]
pub struct Delivery {
    /// The text to commit at once.
    pub commit: Option<String>,
    pub update: PanelUpdate,
}

/// What a panel update says.
pub struct UpdateView {
    pub preedit: Seq<char>,
    pub raw: Seq<char>,
    pub aux: Seq<char>,
    pub texts: Seq<Seq<char>>,
    pub comments: Seq<Seq<char>>,
    pub commits: Seq<Seq<char>>,
    pub selected: usize,
    pub chinese: bool,
}

/// What a delivery says.
pub struct DeliveryView {
    pub commit: Option<Seq<char>>,
    pub update: UpdateView,
}

impl View for PanelUpdate {
    type V = UpdateView;

    open spec fn view(&self) -> UpdateView {
        UpdateView {
            preedit: self.preedit@,
            raw: self.raw@,
            aux: self.aux@,
            texts: text::strings(self.texts@),
            comments: text::strings(self.comments@),
            commits: text::strings(self.commits@),
            selected: self.selected,
            chinese: self.chinese,
        }
    }
}

impl View for Delivery {
    type V = DeliveryView;

    open spec fn view(&self) -> DeliveryView {
        DeliveryView {
            commit: match self.commit {
                Some(s) => Some(s@),
                None => None,
            },
            update: self.update@,
        }
    }
}

/// The commit that reaches the host: not an empty one, not a function word, and not one
/// that a NUL-terminated string cannot carry.
pub open spec fn delivered_commit(commit: Option<Seq<char>>) -> Option<Seq<char>> {
    match commit {
        Some(s) => if s.len() == 0 || function_word(s) || s.contains('\0') {
            None
        } else {
            Some(s)
        },
        None => None,
    }
}

/// The panel that a session state asks for: the typed keys stand in for an empty
/// composition, and each text is what a NUL-terminated string can carry of it.
pub open spec fn panel(s: StateView) -> UpdateView {
    UpdateView {
        preedit: text::c_text(if s.preedit.len() == 0 { s.raw } else { s.preedit }),
        raw: text::c_text(s.raw),
        aux: text::c_text(s.aux),
        texts: Seq::new(s.candidates.len(), |i: int| text::c_text(s.candidates[i].text)),
        comments: Seq::new(s.candidates.len(), |i: int| text::c_text(s.candidates[i].comment)),
        commits: Seq::new(s.candidates.len(), |i: int| text::c_text(s.candidates[i].commit)),
        selected: s.selected,
        chinese: s.chinese,
    }
}

/// The contents of a string, where there is one.
pub open spec fn opt_text(s: Option<String>) -> Option<Seq<char>> {
    match s {
        Some(s) => Some(s@),
        None => None,
    }
}

/// What the host is told: the commit, and the panel.
pub fn delivery(commit: &Option<String>, state: &SessionState) -> (r: Delivery)
    ensures
        r@ == (DeliveryView {
            commit: delivered_commit(opt_text(*commit)),
            update: panel(state@),
        }),
        state.preedit@.len() > 0 && !state.preedit@.contains('\0') ==> r.update.preedit@
            == state.preedit@,
        state.preedit@.len() == 0 && !state.raw@.contains('\0') ==> r.update.preedit@ == state.raw@,
        !state.raw@.contains('\0') ==> r.update.raw@ == state.raw@,
        !state.aux@.contains('\0') ==> r.update.aux@ == state.aux@,
        r.update.texts.len() == state.candidates.len(),
        r.update.comments.len() == state.candidates.len(),
        r.update.commits.len() == state.candidates.len(),
        forall|i: int|
            0 <= i < state.candidates.len() && !state.candidates@[i].text@.contains('\0')
                ==> (#[trigger] r.update.texts@[i])@ == state.candidates@[i].text@,
        forall|i: int|
            0 <= i < state.candidates.len() && !state.candidates@[i].comment@.contains('\0')
                ==> (#[trigger] r.update.comments@[i])@ == state.candidates@[i].comment@,
        forall|i: int|
            0 <= i < state.candidates.len() ==> match state.candidates@[i].commit_override {
                Some(t) => !t@.contains('\0') ==> (#[trigger] r.update.commits@[i])@ == t@,
                None => !state.candidates@[i].text@.contains('\0') ==> r.update.commits@[i]@
                    == state.candidates@[i].text@,
            },
        r.update.selected == state.selected,
        r.update.chinese == state.chinese,
        *commit is None ==> r.commit is None,
        *commit matches Some(t) ==> if t@.len() > 0 && t@ != "{加词}"@ && t@ != "{隐藏候选}"@
            && !t@.contains('\0') {
            r.commit matches Some(u) && u@ == t@
        } else {
            r.commit is None
        },
{
    let mut text: Option<String> = None;
    if let Some(s) = commit {
        if s.as_str().unicode_len() > 0 && !same(s.as_str(), "{加词}") && !same(
            s.as_str(),
            "{隐藏候选}",
        ) && !has_nul(s.as_str()) {
            text = Some(s.clone());
        }
    }
    let preedit = if state.preedit.as_str().unicode_len() == 0 {
        c_text_of(state.raw.as_str())
    } else {
        c_text_of(state.preedit.as_str())
    };
    let n: usize = state.candidates.len();
    let mut texts: Vec<String> = Vec::new();
    let mut comments: Vec<String> = Vec::new();
    let mut commits: Vec<String> = Vec::new();
    let mut i: usize = 0;
    while i < n
        invariant
            i <= n == state.candidates.len(),
            texts.len() == i,
            comments.len() == i,
            commits.len() == i,
            forall|j: int|
                0 <= j < i ==> (#[trigger] texts@[j])@ == text::c_text(state.candidates@[j]@.text),
            forall|j: int|
                0 <= j < i ==> (#[trigger] comments@[j])@ == text::c_text(
                    state.candidates@[j]@.comment,
                ),
            forall|j: int|
                0 <= j < i ==> (#[trigger] commits@[j])@ == text::c_text(state.candidates@[j]@.commit),
        decreases n - i,
    {
        let c = &state.candidates[i];
        texts.push(c_text_of(c.text.as_str()));
        comments.push(c_text_of(c.comment.as_str()));
        commits.push(c_text_of(c.commit_text()));
        i += 1;
    }
    let r = Delivery {
        commit: text,
        update: PanelUpdate {
            preedit,
            raw: c_text_of(state.raw.as_str()),
            aux: c_text_of(state.aux.as_str()),
            texts,
            comments,
            commits,
            selected: state.selected,
            chinese: state.chinese,
        },
    };
    assert(r@.update.texts =~= panel(state@).texts);
    assert(r@.update.comments =~= panel(state@).comments);
    assert(r@.update.commits =~= panel(state@).commits);
    proof {
        panel_shows_state(state@);
        assert(forall|i: int|
            0 <= i < state.candidates.len() ==> #[trigger] state@.candidates[i]
                == state.candidates@[i]@);
        assert(forall|i: int|
            0 <= i < state.candidates.len() ==> (#[trigger] r.update.texts@[i])@
                == r@.update.texts[i]);
        assert(forall|i: int|
            0 <= i < state.candidates.len() ==> (#[trigger] r.update.comments@[i])@
                == r@.update.comments[i]);
        assert(forall|i: int|
            0 <= i < state.candidates.len() ==> (#[trigger] r.update.commits@[i])@
                == r@.update.commits[i]);
    }
    r
}

/// The three lists of a panel have one length, that of the page; no text of the panel holds a NUL;
/// and no function word is ever committed.
pub proof fn panel_can_be_carried(s: StateView, commit: Option<Seq<char>>)
    ensures
        ({
            let p = panel(s);
            &&& p.texts.len() == s.candidates.len()
            &&& p.comments.len() == s.candidates.len()
            &&& p.commits.len() == s.candidates.len()
            &&& !p.preedit.contains('\0') && !p.raw.contains('\0') && !p.aux.contains('\0')
            &&& forall|i: int|
                0 <= i < s.candidates.len() ==> !(#[trigger] p.texts[i]).contains('\0')
                    && !p.comments[i].contains('\0') && !p.commits[i].contains('\0')
        }),
        delivered_commit(commit) matches Some(t) ==> t.len() > 0 && !function_word(t) && !t.contains(
            '\0',
        ),
{
}

/// The panel shows what the engine says: its composition, whatever was typed, and what was typed
/// only where there is no composition; and each candidate's text, remark and commit in its place.
/// What holds a NUL is shown as nothing.
pub proof fn panel_shows_state(s: StateView)
    ensures
        ({
            let p = panel(s);
            &&& s.preedit.len() > 0 && !s.preedit.contains('\0') ==> p.preedit == s.preedit
            &&& s.preedit.len() == 0 && !s.raw.contains('\0') ==> p.preedit == s.raw
            &&& s.preedit.contains('\0') ==> p.preedit.len() == 0
            &&& !s.raw.contains('\0') ==> p.raw == s.raw
            &&& s.raw.contains('\0') ==> p.raw.len() == 0
            &&& !s.aux.contains('\0') ==> p.aux == s.aux
            &&& s.aux.contains('\0') ==> p.aux.len() == 0
            &&& p.texts.len() == s.candidates.len()
            &&& p.comments.len() == s.candidates.len()
            &&& p.commits.len() == s.candidates.len()
            &&& forall|i: int|
                0 <= i < s.candidates.len() ==> {
                    let c = #[trigger] s.candidates[i];
                    &&& !c.text.contains('\0') ==> p.texts[i] == c.text
                    &&& c.text.contains('\0') ==> p.texts[i].len() == 0
                    &&& !c.comment.contains('\0') ==> p.comments[i] == c.comment
                    &&& c.comment.contains('\0') ==> p.comments[i].len() == 0
                    &&& !c.commit.contains('\0') ==> p.commits[i] == c.commit
                    &&& c.commit.contains('\0') ==> p.commits[i].len() == 0
                }
            &&& p.selected == s.selected
            &&& p.chinese == s.chinese
        }),
{
}

/// A candidate commits its own text unless it names another.
pub proof fn candidate_commits_its_text(c: Candidate)
    ensures
        c.commit_override is None ==> c@.commit == c.text@,
        c.commit_override matches Some(s) ==> c@.commit == s@,
        c@.text == c.text@,
        c@.comment == c.comment@,
{
}

/// What is to be committed reaches the host as it is, but for what is nothing, asks for a
/// function, or cannot be carried.
pub proof fn commit_reaches_host(t: Seq<char>)
    ensures
        t.len() > 0 && t != "{加词}"@ && t != "{隐藏候选}"@ && !t.contains('\0') ==> delivered_commit(
            Some(t),
        ) == Some(t),
        t.len() == 0 || t == "{加词}"@ || t == "{隐藏候选}"@ || t.contains('\0') ==> delivered_commit(
            Some(t),
        ) is None,
        delivered_commit(None) is None,
{
}

} // verus!
