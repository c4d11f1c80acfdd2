//! What the candidate window shows: its rows, and the colours that they are drawn in.

use vstd::prelude::*;
use vstd::string::*;

use crate::color::Rgba;
use crate::json::Json;
use crate::labels;
use crate::labels::fmt_label;
use crate::number;
use crate::number::parse_int;
use crate::skin;
use crate::skin::color_f;
use crate::text;
use crate::text::{chars_of, trimmed};

verus! {

/// The most candidates that can be numbered.
pub const MOST: usize = 10;

/// A candidate as it is shown.
#[derive(Debug)]
pub struct Row {
    /// Its number, where numbers are shown.
    pub label: Option<String>,
    pub text: String,
    pub comment: String,
    /// It has the highlight.
    pub hilited: bool,
}

/// The candidate that has the highlight: the one that is selected, or the last.
pub open spec fn hilited_row(selected: int, count: int) -> int {
    if selected < count {
        selected
    } else if count > 0 {
        count - 1
    } else {
        0
    }
}

/// How the numbers are written.
#[derive(Debug)]
pub struct Labels {
    pub shown: bool,
    pub format: String,
    pub style: String,
}

/// Whether a row shows candidate `i`.
pub open spec fn shows(
    r: Row,
    i: int,
    texts: Seq<Seq<char>>,
    comments: Seq<Seq<char>>,
    selected: int,
    l: Labels,
) -> bool {
    &&& crate::session::opt_text(r.label) == if l.shown {
        Some(labels::label(l.format@, l.style@, i + 1))
    } else {
        None
    }
    &&& r.text@ == texts[i]
    &&& r.comment@ == if i < comments.len() {
        comments[i]
    } else {
        seq![]
    }
    &&& r.hilited == (i == hilited_row(selected, texts.len() as int))
}

/// The rows: the first candidates, `most` of them at most, each with its number, its text and its
/// remark.
pub fn rows(
    texts: &Vec<String>,
    comments: &Vec<String>,
    selected: usize,
    l: &Labels,
    most: usize,
) -> (r: Vec<Row>)
    requires
        most <= MOST,
    ensures
        r.len() == if texts.len() < most {
            texts.len()
        } else {
            most
        },
        forall|i: int|
            0 <= i < r.len() ==> shows(
                #[trigger] r[i],
                i,
                text::strings(texts@),
                text::strings(comments@),
                selected as int,
                *l,
            ),
        forall|i: int|
            0 <= i < r.len() ==> (#[trigger] r[i]).text@ == texts[i]@ && (r[i].label is Some <==> l.shown)
                && (r[i].label matches Some(s) ==> s@ == labels::label(l.format@, l.style@, i + 1))
                && (i < comments.len() ==> r[i].comment@ == comments[i]@) && (i >= comments.len()
                ==> r[i].comment@.len() == 0) && (selected < texts.len() ==> (r[i].hilited <==> i
                == selected)) && (selected >= texts.len() ==> (r[i].hilited <==> i + 1 == texts.len())),
{
    let n: usize = texts.len();
    let sel: usize = if selected < n {
        selected
    } else if n > 0 {
        n - 1
    } else {
        0
    };
    let count: usize = if n < most {
        n
    } else {
        most
    };
    let mut r: Vec<Row> = Vec::new();
    for i in 0..count
        invariant
            n == texts.len(),
            count <= n,
            count <= MOST,
            sel == hilited_row(selected as int, n as int),
            r.len() == i,
            forall|k: int|
                0 <= k < i ==> shows(
                    #[trigger] r[k],
                    k,
                    text::strings(texts@),
                    text::strings(comments@),
                    selected as int,
                    *l,
                ),
    {
        let label = if l.shown {
            Some(fmt_label(l.format.as_str(), l.style.as_str(), i + 1))
        } else {
            None
        };
        let comment = if i < comments.len() {
            comments[i].as_str().to_owned()
        } else {
            String::new()
        };
        r.push(Row { label, text: texts[i].as_str().to_owned(), comment, hilited: i == sel });
    }
    r
}

/// One row at most has the highlight, and where there are candidates and the selected one is
/// among those that are shown, one has.
pub proof fn one_row_is_hilited(
    r: Seq<Row>,
    texts: Seq<Seq<char>>,
    comments: Seq<Seq<char>>,
    selected: int,
    l: Labels,
    most: int,
)
    requires
        r.len() == if texts.len() < most {
            texts.len() as int
        } else {
            most
        },
        forall|i: int| 0 <= i < r.len() ==> shows(#[trigger] r[i], i, texts, comments, selected, l),
        0 <= selected,
    ensures
        forall|i: int, j: int| 0 <= i < r.len() && 0 <= j < r.len() && r[i].hilited && r[j].hilited ==> i
            == j,
        0 < texts.len() <= most || selected < r.len() ==> r[hilited_row(
            selected,
            texts.len() as int,
        )].hilited,
{
}

/// The colours of the window.
#[derive(Clone, Copy, Debug)]
pub struct Palette {
    pub back: Rgba,
    pub border: Rgba,
    pub shadow: Rgba,
    pub code: Rgba,
    pub code_back: Rgba,
    pub text: Rgba,
    pub label: Rgba,
    pub comment: Rgba,
    pub hi_back: Rgba,
    pub hi_text: Rgba,
    pub hi_label: Rgba,
    pub hi_comment: Rgba,
}

/// The colours that a skin gives the window, or the usual ones.
pub fn palette(skin: &Json) -> (r: Palette)
    ensures
        ({
            let t = skin.tree();
            &&& r.back == skin::skin_color_text(t, "back_color"@, "#202022E6"@)
            &&& r.border == skin::skin_color_text(t, "border_color"@, "#FFFFFF26"@)
            &&& r.shadow == skin::skin_color_text(t, "shadow_color"@, "#000000FF"@)
            &&& r.code == skin::skin_color_text(t, "hilited_text_color"@, "#E8E8EAFF"@)
            &&& r.code_back == skin::skin_color_text(t, "preedit_back_color"@, "#00000000"@)
            &&& r.text == skin::skin_color_text(t, "candidate_text_color"@, "#E8E8EAFF"@)
            &&& r.label == skin::skin_color_text(t, "label_color"@, "#C9C9C9FF"@)
            &&& r.comment == skin::skin_color_text(t, "comment_text_color"@, "#9A9AA0FF"@)
            &&& r.hi_back == skin::skin_color_text(t, "hilited_candidate_back_color"@, "#404046FF"@)
            &&& r.hi_text == skin::skin_color_text(t, "hilited_candidate_text_color"@, "#FFFFFFFF"@)
            &&& r.hi_label == skin::skin_color_text(
                t,
                "hilited_candidate_label_color"@,
                "#FFD75EFF"@,
            )
            &&& r.hi_comment == skin::skin_color_text(
                t,
                "hilited_comment_text_color"@,
                "#C9C9C9FF"@,
            )
        }),
{
    Palette {
        back: color_f(skin, "back_color", "#202022E6"),
        border: color_f(skin, "border_color", "#FFFFFF26"),
        shadow: color_f(skin, "shadow_color", "#000000FF"),
        code: color_f(skin, "hilited_text_color", "#E8E8EAFF"),
        code_back: color_f(skin, "preedit_back_color", "#00000000"),
        text: color_f(skin, "candidate_text_color", "#E8E8EAFF"),
        label: color_f(skin, "label_color", "#C9C9C9FF"),
        comment: color_f(skin, "comment_text_color", "#9A9AA0FF"),
        hi_back: color_f(skin, "hilited_candidate_back_color", "#404046FF"),
        hi_text: color_f(skin, "hilited_candidate_text_color", "#FFFFFFFF"),
        hi_label: color_f(skin, "hilited_candidate_label_color", "#FFD75EFF"),
        hi_comment: color_f(skin, "hilited_comment_text_color", "#C9C9C9FF"),
    }
}

impl Palette {
    /// Whether the code has a background of its own: one that the skin does not make transparent,
    /// but for a hundredth.
    pub fn code_has_back(&self) -> (r: bool)
        ensures
            r == (self.code_back.3 >= 3),
    {
        self.code_back.3 >= 3
    }
}

/// How many layers a test drawing has, as a file says: at most five, and none where it is no
/// number.
pub fn diag_stage(file: &str) -> (r: u32)
    ensures
        r == match number::int_of(text::trim(file@), 0, u32::MAX as int) {
            Some(n) => if n < 5 {
                n
            } else {
                5
            },
            None => 0,
        },
{
    let cs = chars_of(file);
    let t = trimmed(&cs);
    match parse_int(&t, 0, u32::MAX as i128) {
        Some(n) => if n < 5 {
            n as u32
        } else {
            5
        },
        None => 0,
    }
}

/// The layers of a drawing.
#[derive(Clone, Copy, Debug, PartialEq, Eq, Structural)]
pub struct Layers {
    pub shadow: bool,
    pub back: bool,
    /// The typed keys, the candidates and the border.
    pub content: bool,
}

/// The layers of a test drawing: its first has none, the second the background, the fourth the
/// shadow too. Any other drawing has them all.
pub fn layers(stage: u32) -> (r: Layers)
    ensures
        r.shadow == !(1 <= stage <= 3),
        r.back == (stage != 1),
        r.content == !(1 <= stage <= 4),
{
    Layers {
        shadow: !(1 <= stage && stage <= 3),
        back: stage != 1,
        content: !(1 <= stage && stage <= 4),
    }
}

/// The selected candidate has the highlight; where the selection is beyond the candidates, the
/// last has it.
pub proof fn selected_row_is_hilited(selected: int, count: int)
    requires
        0 <= selected,
        0 < count,
    ensures
        0 <= hilited_row(selected, count) < count,
        selected < count ==> hilited_row(selected, count) == selected,
        selected >= count ==> hilited_row(selected, count) + 1 == count,
{
}

} // verus!
