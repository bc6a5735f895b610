//! Tool-block rendering for scrollback: the shared `● name [project]`
//! header, the compact renderer for read/explore tools, the command renderer
//! for command execution, and the diff renderer for write tools. Line-level
//! diffs come from the similar crate through a trusted wrapper; numbering,
//! search/replace parsing and layout are verified.

use vstd::prelude::*;
use crate::message::{ToolUseBlock, ToolStatus, spec_param_index, str_eq};
use crate::style::{StyledLine, StyledSpan, TextStyle, MOD_BOLD, MOD_DIM};
use crate::text::{
    chars_of_str,
    string_of_chars,
    append_chars,
    push_decimal,
    spec_decimal,
    lines_of,
    spec_lines,
    spec_is_blank,
};

verus! {

/// The status color of a tool block.
pub open spec fn spec_status_color(s: ToolStatus) -> ratatui::style::Color {
    match s {
        ToolStatus::Pending => ratatui::style::Color::Yellow,
        ToolStatus::Running => ratatui::style::Color::Blue,
        ToolStatus::Success => ratatui::style::Color::Green,
        ToolStatus::Error => ratatui::style::Color::Red,
    }
}

pub fn status_color(s: ToolStatus) -> (r: ratatui::style::Color)
    ensures
        r == spec_status_color(s),
{
    match s {
        ToolStatus::Pending => ratatui::style::Color::Yellow,
        ToolStatus::Running => ratatui::style::Color::Blue,
        ToolStatus::Success => ratatui::style::Color::Green,
        ToolStatus::Error => ratatui::style::Color::Red,
    }
}

/// A project parameter worth showing: present, and neither empty, `.` nor
/// `unknown`.
pub open spec fn spec_project_shown(t: ToolUseBlock) -> Option<Seq<char>> {
    match spec_param_index(t.parameters@, "project"@) {
        Some(i) => {
            let v = t.parameters@[i].value.value@;
            if v.len() == 0 || v == "."@ || v == "unknown"@ {
                None
            } else {
                Some(v)
            }
        },
        None => None,
    }
}

/// ` [project]` when a meaningful project parameter is present, else empty.
pub fn get_project_suffix(t: &ToolUseBlock) -> (r: String)
    requires
        t.spec_wf(),
    ensures
        match spec_project_shown(*t) {
            Some(v) => r@ == " ["@ + v + "]"@,
            None => r@.len() == 0,
        },
{
    proof {
        reveal_strlit("project");
        reveal_strlit(".");
        reveal_strlit("unknown");
        reveal_strlit(" [");
        reveal_strlit("]");
    }
    match t.param_value("project") {
        Some(v) => {
            let cs = chars_of_str(v.as_str());
            let dot = chars_of_str(".");
            let unknown = chars_of_str("unknown");
            if cs.len() == 0 || crate::text::matches_whole(&cs, &dot) || crate::text::matches_whole(
                &cs,
                &unknown,
            ) {
                String::new()
            } else {
                let mut out = chars_of_str(" [");
                append_chars(&mut out, &cs);
                out.push(']');
                proof {
                    assert(out@ =~= " ["@ + cs@ + "]"@);
                }
                string_of_chars(&out)
            }
        },
        None => String::new(),
    }
}

/// The `● name [project]` header line for scrollback.
pub fn tool_header_line(t: &ToolUseBlock) -> (r: StyledLine)
    requires
        t.spec_wf(),
    ensures
        r@.spans.len() == (if spec_project_shown(*t) is Some {
            3int
        } else {
            2int
        }),
        r@.spans[0].content == "\u{25cf} "@,
        r@.spans[0].style.fg == Some(spec_status_color(t.status)),
        r@.spans[1].content == t.name@,
        r@.spans[1].style.mods == MOD_BOLD,
        spec_project_shown(*t) matches Some(v) ==> r@.spans[2].content == " ["@ + v + "]"@,
    {
        proof {
            reveal_strlit("\u{25cf} ");
        }
        let color = status_color(t.status);
        let project = get_project_suffix(t);
        let pcs = chars_of_str(project.as_str());
        let mut spans: Vec<StyledSpan> = Vec::new();
        spans.push(
            StyledSpan::new(String::from_str("\u{25cf} "), TextStyle::plain().with_fg(color)),
        );
        spans.push(
            StyledSpan::new(
                string_of_chars(&chars_of_str(t.name.as_str())),
                TextStyle {
                    fg: Some(ratatui::style::Color::White),
                    bg: None,
                    mods: MOD_BOLD,
                },
            ),
        );
        if pcs.len() > 0 {
            spans.push(
                StyledSpan::new(
                    project,
                    TextStyle::plain().with_fg(ratatui::style::Color::DarkGray),
                ),
            );
        }
        StyledLine::from_spans(spans)
    }

/// Appends the `  message` error line when the tool failed with a message.
pub fn push_error_history_line(t: &ToolUseBlock, lines: &mut Vec<StyledLine>)
    ensures
        (t.status is Error && t.status_message is Some) ==> ({
            &&& final(lines)@.len() == old(lines)@.len() + 1
            &&& final(lines)@.last()@.spans.len() == 1
            &&& final(lines)@.last()@.spans[0].content == "  "@
                + t.status_message->0@
            &&& forall|j: int|
                0 <= j < old(lines)@.len() ==> #[trigger] final(lines)@[j] == old(lines)@[j]
        }),
        !(t.status is Error && t.status_message is Some) ==> final(lines)@ == old(lines)@,
{
    proof {
        reveal_strlit("  ");
    }
    if matches!(t.status, ToolStatus::Error) {
        match &t.status_message {
            Some(message) => {
                let mut cs = chars_of_str("  ");
                let mcs = chars_of_str(message.as_str());
                append_chars(&mut cs, &mcs);
                let span = StyledSpan::new(
                    string_of_chars(&cs),
                    TextStyle::plain().with_fg(ratatui::style::Color::LightRed),
                );
                lines.push(StyledLine::from_span(span));
            },
            None => {},
        }
    }
}

/// One line of a rendered diff.
#[derive(Debug)]
pub enum DiffLine {
    Context { line_num: usize, text: String },
    Insert { line_num: usize, text: String },
    Delete { line_num: usize, text: String },
    HunkSeparator,
}

/// The spec-level value of a diff line.
pub enum DiffLineV {
    Context { line_num: int, text: Seq<char> },
    Insert { line_num: int, text: Seq<char> },
    Delete { line_num: int, text: Seq<char> },
    HunkSeparator,
}

impl View for DiffLine {
    type V = DiffLineV;

    open spec fn view(&self) -> DiffLineV {
        match self {
            DiffLine::Context { line_num, text } => DiffLineV::Context {
                line_num: *line_num as int,
                text: text@,
            },
            DiffLine::Insert { line_num, text } => DiffLineV::Insert {
                line_num: *line_num as int,
                text: text@,
            },
            DiffLine::Delete { line_num, text } => DiffLineV::Delete {
                line_num: *line_num as int,
                text: text@,
            },
            DiffLine::HunkSeparator => DiffLineV::HunkSeparator,
        }
    }
}

/// The views of a list of diff lines.
pub open spec fn diff_lines_view(ls: Seq<DiffLine>) -> Seq<DiffLineV> {
    ls.map_values(|l: DiffLine| l@)
}

/// One change of a line-level diff: 0 keeps the line, 1 deletes it, 2
/// inserts it; the text keeps its trailing newline.
#[derive(Debug)]
pub struct DiffChange {
    pub tag: u8,
    pub text: String,
}

/// The views of a list of changes.
pub open spec fn changes_view(cs: Seq<DiffChange>) -> Seq<(u8, Seq<char>)> {
    cs.map_values(|c: DiffChange| (c.tag, c.text@))
}

/// The line-level diff the similar crate computes between two texts, as
/// (tag, line) pairs in diff order.
pub uninterp spec fn line_diff_of(old_text: Seq<char>, new_text: Seq<char>) -> Seq<(u8, Seq<char>)>;

/// The concatenated texts of the changes whose tag is one of the two given
/// ones, in diff order.
pub open spec fn spec_changes_concat(cs: Seq<(u8, Seq<char>)>, ta: u8, tb: u8) -> Seq<char>
    decreases cs.len(),
{
    if cs.len() == 0 {
        Seq::<char>::empty()
    } else {
        (if cs[0].0 == ta || cs[0].0 == tb {
            cs[0].1
        } else {
            Seq::<char>::empty()
        }) + spec_changes_concat(cs.drop_first(), ta, tb)
    }
}

/// Relies on similar's TextDiff with newline-terminated line diffing: the
/// ordered changes between the two texts, a function of the texts alone.
/// Equal lines tag 0, deleted lines 1, inserted lines 2. As a line diff it
/// projects back onto its inputs: the equal and deleted lines concatenate
/// to the old text, the equal and inserted lines to the new one.
#[verifier::external_body]
pub fn diff_line_changes(old_text: &str, new_text: &str) -> (r: Vec<DiffChange>)
    ensures
        changes_view(r@) == line_diff_of(old_text@, new_text@),
        forall|i: int| 0 <= i < r@.len() ==> (#[trigger] r@[i]).tag <= 2,
        spec_changes_concat(changes_view(r@), 0, 1) == old_text@,
        spec_changes_concat(changes_view(r@), 0, 2) == new_text@,
{
    let diff = similar::TextDiff::configure().newline_terminated(true).diff_lines(
        old_text,
        new_text,
    );
    let mut out: Vec<DiffChange> = Vec::new();
    for change in diff.iter_all_changes() {
        let tag: u8 = match change.tag() {
            similar::ChangeTag::Equal => 0,
            similar::ChangeTag::Delete => 1,
            similar::ChangeTag::Insert => 2,
        };
        out.push(DiffChange { tag, text: change.value().to_string() });
    }
    out
}

/// `s` without one trailing newline, if any.
pub open spec fn spec_chomp(s: Seq<char>) -> Seq<char> {
    if s.len() > 0 && s.last() == '\n' {
        s.drop_last()
    } else {
        s
    }
}

fn chomp(v: &Vec<char>) -> (r: Vec<char>)
    ensures
        r@ == spec_chomp(v@),
{
    if v.len() > 0 && v[v.len() - 1] == '\n' {
        let r = crate::text::subrange_vec(v, 0, v.len() - 1);
        proof {
            assert(r@ =~= v@.drop_last());
        }
        r
    } else {
        let r = crate::text::subrange_vec(v, 0, v.len());
        proof {
            assert(r@ =~= v@);
        }
        r
    }
}

/// The numbered diff lines for a change list: context lines advance both
/// counters and show the new number, deletions show and advance the old
/// counter, insertions the new one. Counters start at 1.
pub open spec fn spec_numbered(cs: Seq<(u8, Seq<char>)>, old_ln: int, new_ln: int) -> Seq<
    DiffLineV,
>
    decreases cs.len(),
{
    if cs.len() == 0 {
        Seq::<DiffLineV>::empty()
    } else {
        let c = cs[0];
        let text = spec_chomp(c.1);
        if c.0 == 0 {
            seq![DiffLineV::Context { line_num: new_ln, text }] + spec_numbered(
                cs.drop_first(),
                old_ln + 1,
                new_ln + 1,
            )
        } else if c.0 == 1 {
            seq![DiffLineV::Delete { line_num: old_ln, text }] + spec_numbered(
                cs.drop_first(),
                old_ln + 1,
                new_ln,
            )
        } else {
            seq![DiffLineV::Insert { line_num: new_ln, text }] + spec_numbered(
                cs.drop_first(),
                old_ln,
                new_ln + 1,
            )
        }
    }
}

/// The diff between two texts, with 1-based line numbers.
pub fn generate_diff_lines(old_text: &str, new_text: &str) -> (r: Vec<DiffLine>)
    ensures
        diff_lines_view(r@) == spec_numbered(line_diff_of(old_text@, new_text@), 1, 1),
{
    let changes = diff_line_changes(old_text, new_text);
    let ghost cv = changes_view(changes@);
    let mut r: Vec<DiffLine> = Vec::new();
    let mut old_ln: u128 = 1;
    let mut new_ln: u128 = 1;
    let mut i: usize = 0;
    proof {
        assert(cv.skip(0) =~= cv);
    }
    while i < changes.len()
        invariant
            i <= changes@.len(),
            cv == changes_view(changes@),
            forall|k: int| 0 <= k < changes@.len() ==> (#[trigger] changes@[k]).tag <= 2,
            1 <= old_ln <= 1 + i,
            1 <= new_ln <= 1 + i,
            spec_numbered(cv, 1, 1) == diff_lines_view(r@) + spec_numbered(
                cv.skip(i as int),
                old_ln as int,
                new_ln as int,
            ),
        decreases changes@.len() - i,
    {
        let ghost rest = cv.skip(i as int);
        proof {
            assert(rest[0] == cv[i as int]);
            assert(rest.drop_first() =~= cv.skip(i + 1));
            assert(cv[i as int] == (changes@[i as int].tag, changes@[i as int].text@));
        }
        let tcs = chars_of_str(changes[i].text.as_str());
        let text = string_of_chars(&chomp(&tcs));
        let ghost pre = r@;
        let tag = changes[i].tag;
        proof {
            assert(old_ln <= usize::MAX && new_ln <= usize::MAX);
        }
        if tag == 0 {
            let d = DiffLine::Context { line_num: new_ln as usize, text };
            let ghost dv = d;
            r.push(d);
            proof {
                push_view_lemma(pre, r@, dv);
            }
            old_ln = old_ln + 1;
            new_ln = new_ln + 1;
        } else if tag == 1 {
            let d = DiffLine::Delete { line_num: old_ln as usize, text };
            let ghost dv = d;
            r.push(d);
            proof {
                push_view_lemma(pre, r@, dv);
            }
            old_ln = old_ln + 1;
        } else {
            let d = DiffLine::Insert { line_num: new_ln as usize, text };
            let ghost dv = d;
            r.push(d);
            proof {
                push_view_lemma(pre, r@, dv);
            }
            new_ln = new_ln + 1;
        }
        proof {
            assert(spec_numbered(cv, 1, 1) =~= diff_lines_view(r@) + spec_numbered(
                cv.skip(i + 1),
                old_ln as int,
                new_ln as int,
            ));
        }
        i += 1;
    }
    proof {
        assert(cv.skip(cv.len() as int) =~= Seq::<(u8, Seq<char>)>::empty());
        assert(diff_lines_view(r@) =~= spec_numbered(cv, 1, 1));
    }
    r
}

/// `post == pre.push(d)` pointwise for diff-line views.
pub proof fn push_view_lemma(pre: Seq<DiffLine>, post: Seq<DiffLine>, d: DiffLine)
    requires
        post == pre.push(d),
    ensures
        diff_lines_view(post) == diff_lines_view(pre).push(d@),
{
    assert forall|j: int| 0 <= j < post.len() implies #[trigger] diff_lines_view(post)[j]
        == diff_lines_view(pre).push(d@)[j] by {
        assert(diff_lines_view(post)[j] == post[j]@);
        if j < pre.len() {
            assert(post[j] == pre[j]);
            assert(diff_lines_view(pre)[j] == pre[j]@);
        }
    }
    assert(diff_lines_view(post) =~= diff_lines_view(pre).push(d@));
}

/// Every line of a written file is an insertion with its 1-based number.
pub fn generate_write_file_diff_lines(content: &str) -> (r: Vec<DiffLine>)
    ensures
        r@.len() == spec_lines(content@).len(),
        forall|i: int|
            0 <= i < r@.len() ==> #[trigger] diff_lines_view(r@)[i] == (DiffLineV::Insert {
                line_num: i + 1,
                text: spec_lines(content@)[i],
            }),
{
    let cs = chars_of_str(content);
    let lines = lines_of(&cs);
    let mut r: Vec<DiffLine> = Vec::new();
    let mut i: usize = 0;
    while i < lines.len()
        invariant
            i <= lines@.len(),
            lines@.map_values(|seg: Vec<char>| seg@) == spec_lines(content@),
            r@.len() == i,
            forall|j: int|
                0 <= j < i ==> #[trigger] diff_lines_view(r@)[j] == (DiffLineV::Insert {
                    line_num: j + 1,
                    text: spec_lines(content@)[j],
                }),
        decreases lines@.len() - i,
    {
        let text = string_of_chars(&lines[i]);
        let ghost pre = r@;
        let d = DiffLine::Insert { line_num: i + 1, text };
        let ghost dv = d;
        r.push(d);
        proof {
            push_view_lemma(pre, r@, dv);
            assert(lines@.map_values(|seg: Vec<char>| seg@)[i as int] == lines@[i as int]@);
            assert forall|j: int|
                0 <= j < i + 1 implies #[trigger] diff_lines_view(r@)[j] == (DiffLineV::Insert {
                line_num: j + 1,
                text: spec_lines(content@)[j],
            }) by {
                if j < i {
                    assert(diff_lines_view(r@)[j] == diff_lines_view(pre)[j]);
                }
            }
        }
        i += 1;
    }
    r
}

/// The largest line number mentioned by any diff line.
pub open spec fn spec_max_line_number(ds: Seq<DiffLineV>) -> int
    decreases ds.len(),
{
    if ds.len() == 0 {
        0
    } else {
        let rest = spec_max_line_number(ds.drop_last());
        let n = (match ds.last() {
            DiffLineV::Context { line_num, .. } => line_num,
            DiffLineV::Insert { line_num, .. } => line_num,
            DiffLineV::Delete { line_num, .. } => line_num,
            DiffLineV::HunkSeparator => 0,
        });
        if n > rest {
            n
        } else {
            rest
        }
    }
}

pub fn max_line_number(ds: &Vec<DiffLine>) -> (r: usize)
    ensures
        r as int == spec_max_line_number(diff_lines_view(ds@)),
{
    let ghost dv = diff_lines_view(ds@);
    let mut r: usize = 0;
    let mut i: usize = 0;
    proof {
        assert(dv.take(0) =~= Seq::<DiffLineV>::empty());
    }
    while i < ds.len()
        invariant
            i <= ds@.len(),
            dv == diff_lines_view(ds@),
            r as int == spec_max_line_number(dv.take(i as int)),
        decreases ds@.len() - i,
    {
        proof {
            assert(dv.take(i + 1).drop_last() =~= dv.take(i as int));
            assert(dv.take(i + 1).last() == dv[i as int]);
            assert(dv[i as int] == ds@[i as int]@);
        }
        let n = match &ds[i] {
            DiffLine::Context { line_num, .. } => *line_num,
            DiffLine::Insert { line_num, .. } => *line_num,
            DiffLine::Delete { line_num, .. } => *line_num,
            DiffLine::HunkSeparator => 0,
        };
        if n > r {
            r = n;
        }
        i += 1;
    }
    proof {
        assert(dv.take(dv.len() as int) =~= dv);
    }
    r
}

/// The gutter width: the decimal width of the largest line number, at least
/// one column.
pub fn line_number_width(max_line: usize) -> (r: usize)
    ensures
        max_line == 0 ==> r == 1,
        max_line > 0 ==> r == spec_decimal(max_line as nat).len(),
{
    if max_line == 0 {
        return 1;
    }
    let mut out: Vec<char> = Vec::new();
    push_decimal(&mut out, max_line as u64);
    out.len()
}

/// Parser state for the search/replace diff format.
pub struct SrState {
    pub out: Seq<DiffLineV>,
    pub blocks: int,
    pub in_search: bool,
    pub in_replace: bool,
    pub search: Seq<Seq<char>>,
    pub replace: Seq<Seq<char>>,
}

/// All lines as one tag with local 1-based numbers.
pub open spec fn spec_block_lines(ls: Seq<Seq<char>>, deletes: bool) -> Seq<DiffLineV> {
    Seq::new(
        ls.len(),
        |i: int|
            if deletes {
                DiffLineV::Delete { line_num: i + 1, text: ls[i] }
            } else {
                DiffLineV::Insert { line_num: i + 1, text: ls[i] }
            },
    )
}

/// One parser step of the `<<<<<<< SEARCH` / `=======` / `>>>>>>> REPLACE`
/// format: markers switch the section, a closing marker emits the block as
/// all deletions then all insertions, blocks after the first are preceded by
/// a hunk separator; other lines collect into the open section.
pub open spec fn spec_sr_step(st: SrState, line: Seq<char>) -> SrState {
    if line.len() >= 14 && line.take(14) == "<<<<<<< SEARCH"@ {
        SrState {
            out: st.out + (if st.blocks > 0 {
                seq![DiffLineV::HunkSeparator]
            } else {
                Seq::<DiffLineV>::empty()
            }),
            blocks: st.blocks,
            in_search: true,
            in_replace: false,
            search: Seq::empty(),
            replace: Seq::empty(),
        }
    } else if line == "======="@ && st.in_search {
        SrState { in_search: false, in_replace: true, ..st }
    } else if line.len() >= 15 && line.take(15) == ">>>>>>> REPLACE"@ && st.in_replace {
        SrState {
            out: st.out + spec_block_lines(st.search, true) + spec_block_lines(st.replace, false),
            blocks: st.blocks + 1,
            in_search: false,
            in_replace: false,
            search: st.search,
            replace: st.replace,
        }
    } else if st.in_search {
        SrState { search: st.search.push(line), ..st }
    } else if st.in_replace {
        SrState { replace: st.replace.push(line), ..st }
    } else {
        st
    }
}

/// The parser folded over the remaining lines.
pub open spec fn spec_sr_fold(lines: Seq<Seq<char>>, st: SrState) -> SrState
    decreases lines.len(),
{
    if lines.len() == 0 {
        st
    } else {
        spec_sr_fold(lines.drop_first(), spec_sr_step(st, lines[0]))
    }
}

pub open spec fn spec_sr_init() -> SrState {
    SrState {
        out: Seq::empty(),
        blocks: 0,
        in_search: false,
        in_replace: false,
        search: Seq::empty(),
        replace: Seq::empty(),
    }
}

/// Parses the search/replace diff parameter into diff lines.
pub fn generate_search_replace_diff_lines(diff_param: &str) -> (r: Vec<DiffLine>)
    ensures
        diff_lines_view(r@) == spec_sr_fold(spec_lines(diff_param@), spec_sr_init()).out,
{
    proof {
        reveal_strlit("<<<<<<< SEARCH");
        reveal_strlit("=======");
        reveal_strlit(">>>>>>> REPLACE");
    }
    let cs = chars_of_str(diff_param);
    let lines = lines_of(&cs);
    let ghost lv = lines@.map_values(|seg: Vec<char>| seg@);
    let marker_start = chars_of_str("<<<<<<< SEARCH");
    let marker_mid = chars_of_str("=======");
    let marker_end = chars_of_str(">>>>>>> REPLACE");
    let mut r: Vec<DiffLine> = Vec::new();
    let mut blocks: usize = 0;
    let mut in_search = false;
    let mut in_replace = false;
    let mut search: Vec<Vec<char>> = Vec::new();
    let mut replace: Vec<Vec<char>> = Vec::new();
    let mut i: usize = 0;
    proof {
        assert(lv.skip(0) =~= lv);
        assert(diff_lines_view(r@) =~= Seq::<DiffLineV>::empty());
        assert(search@.map_values(|seg: Vec<char>| seg@) =~= Seq::<Seq<char>>::empty());
        assert(replace@.map_values(|seg: Vec<char>| seg@) =~= Seq::<Seq<char>>::empty());
    }
    while i < lines.len()
        invariant
            i <= lines@.len(),
            lv == lines@.map_values(|seg: Vec<char>| seg@),
            marker_start@ == "<<<<<<< SEARCH"@ && marker_start@.len() == 14,
            marker_mid@ == "======="@,
            marker_end@ == ">>>>>>> REPLACE"@ && marker_end@.len() == 15,
            blocks <= i,
            ({
                let st = SrState {
                    out: diff_lines_view(r@),
                    blocks: blocks as int,
                    in_search,
                    in_replace,
                    search: search@.map_values(|seg: Vec<char>| seg@),
                    replace: replace@.map_values(|seg: Vec<char>| seg@),
                };
                spec_sr_fold(lv, spec_sr_init()) == spec_sr_fold(lv.skip(i as int), st)
            }),
        decreases lines@.len() - i,
    {
        let ghost st0 = SrState {
            out: diff_lines_view(r@),
            blocks: blocks as int,
            in_search,
            in_replace,
            search: search@.map_values(|seg: Vec<char>| seg@),
            replace: replace@.map_values(|seg: Vec<char>| seg@),
        };
        proof {
            assert(lv.skip(i as int)[0] == lv[i as int]);
            assert(lv.skip(i as int).drop_first() =~= lv.skip(i + 1));
            assert(lv[i as int] == lines@[i as int]@);
        }
        let line = &lines[i];
        if line.len() >= 14 && crate::text::matches_at(line, 0, &marker_start) {
            proof {
                assert(lv[i as int].take(14) =~= line@.subrange(0, 14));
            }
            if blocks > 0 {
                let ghost pre = r@;
                r.push(DiffLine::HunkSeparator);
                proof {
                    push_view_lemma(pre, r@, DiffLine::HunkSeparator);
                    assert(diff_lines_view(r@) =~= st0.out + seq![DiffLineV::HunkSeparator]);
                }
            }
            in_search = true;
            in_replace = false;
            search = Vec::new();
            replace = Vec::new();
            proof {
                if blocks == 0 {
                    assert(diff_lines_view(r@) =~= st0.out + Seq::<DiffLineV>::empty());
                }
                assert(search@.map_values(|seg: Vec<char>| seg@) =~= Seq::<Seq<char>>::empty());
                assert(replace@.map_values(|seg: Vec<char>| seg@) =~= Seq::<Seq<char>>::empty());
            }
        } else if crate::text::matches_whole(line, &marker_mid) && in_search {
            in_search = false;
            in_replace = true;
        } else if line.len() >= 15 && crate::text::matches_at(line, 0, &marker_end) && in_replace {
            proof {
                assert(lv[i as int].take(15) =~= line@.subrange(0, 15));
            }
            in_search = false;
            in_replace = false;
            blocks = blocks + 1;
            push_tagged_lines(&mut r, &search, true);
            push_tagged_lines(&mut r, &replace, false);
            proof {
                assert(diff_lines_view(r@) =~= st0.out + spec_block_lines(st0.search, true)
                    + spec_block_lines(st0.replace, false));
            }
        } else if in_search {
            let ghost pres = search@.map_values(|seg: Vec<char>| seg@);
            let seg = crate::text::subrange_vec(line, 0, line.len());
            proof {
                assert(seg@ =~= line@);
            }
            search.push(seg);
            proof {
                assert(search@.map_values(|seg2: Vec<char>| seg2@) =~= pres.push(lv[i as int]));
            }
        } else if in_replace {
            let ghost prer = replace@.map_values(|seg: Vec<char>| seg@);
            let seg = crate::text::subrange_vec(line, 0, line.len());
            proof {
                assert(seg@ =~= line@);
            }
            replace.push(seg);
            proof {
                assert(replace@.map_values(|seg2: Vec<char>| seg2@) =~= prer.push(lv[i as int]));
            }
        }
        proof {
            let st1 = SrState {
                out: diff_lines_view(r@),
                blocks: blocks as int,
                in_search,
                in_replace,
                search: search@.map_values(|seg: Vec<char>| seg@),
                replace: replace@.map_values(|seg: Vec<char>| seg@),
            };
            assert(st1 == spec_sr_step(st0, lv[i as int]));
        }
        i += 1;
    }
    proof {
        assert(lv.skip(lv.len() as int) =~= Seq::<Seq<char>>::empty());
    }
    r
}

/// Appends every line as one tag with local 1-based numbers.
fn push_tagged_lines(r: &mut Vec<DiffLine>, ls: &Vec<Vec<char>>, deletes: bool)
    ensures
        diff_lines_view(final(r)@) == diff_lines_view(old(r)@) + spec_block_lines(
            ls@.map_values(|seg: Vec<char>| seg@),
            deletes,
        ),
{
    let ghost base = diff_lines_view(r@);
    let ghost lsv = ls@.map_values(|seg: Vec<char>| seg@);
    let mut i: usize = 0;
    while i < ls.len()
        invariant
            i <= ls@.len(),
            lsv == ls@.map_values(|seg: Vec<char>| seg@),
            diff_lines_view(r@) == base + spec_block_lines(lsv, deletes).take(i as int),
        decreases ls@.len() - i,
    {
        let text = string_of_chars(&ls[i]);
        let ghost pre = r@;
        let d = if deletes {
            DiffLine::Delete { line_num: i + 1, text }
        } else {
            DiffLine::Insert { line_num: i + 1, text }
        };
        let ghost dv = d;
        r.push(d);
        proof {
            push_view_lemma(pre, r@, dv);
            assert(lsv[i as int] == ls@[i as int]@);
            assert(dv@ == spec_block_lines(lsv, deletes)[i as int]);
            assert(diff_lines_view(r@) =~= base + spec_block_lines(lsv, deletes).take(i + 1));
        }
        i += 1;
    }
    proof {
        assert(spec_block_lines(lsv, deletes).take(lsv.len() as int) =~= spec_block_lines(
            lsv,
            deletes,
        ));
    }
}

/// Tab characters expanded to 4-column stops; `cmod` is the current column
/// modulo 4.
pub open spec fn spec_expand_tabs(s: Seq<char>, cmod: int) -> Seq<char>
    decreases s.len(),
{
    if s.len() == 0 {
        Seq::<char>::empty()
    } else if s[0] == '\t' {
        let k = 4 - cmod;
        spec_spaces(k as nat) + spec_expand_tabs(s.drop_first(), 0)
    } else {
        seq![s[0]] + spec_expand_tabs(s.drop_first(), (cmod + 1) % 4)
    }
}

/// `n` spaces.
pub open spec fn spec_spaces(n: nat) -> Seq<char> {
    Seq::new(n, |i: int| ' ')
}

/// Expands tabs to 4-column stops.
pub fn expand_tabs(text: &Vec<char>) -> (r: Vec<char>)
    ensures
        r@ == spec_expand_tabs(text@, 0),
{
    let mut out: Vec<char> = Vec::new();
    let mut cmod: usize = 0;
    let mut i: usize = 0;
    proof {
        assert(text@.skip(0) =~= text@);
    }
    while i < text.len()
        invariant
            i <= text@.len(),
            cmod < 4,
            spec_expand_tabs(text@, 0) == out@ + spec_expand_tabs(
                text@.skip(i as int),
                cmod as int,
            ),
        decreases text@.len() - i,
    {
        proof {
            assert(text@.skip(i as int)[0] == text@[i as int]);
            assert(text@.skip(i as int).drop_first() =~= text@.skip(i + 1));
        }
        let c = text[i];
        if c == '\t' {
            let k = 4 - cmod;
            let mut j: usize = 0;
            let ghost outpre = out@;
            while j < k
                invariant
                    j <= k <= 4,
                    out@ == outpre + spec_spaces(j as nat),
                decreases k - j,
            {
                out.push(' ');
                proof {
                    assert(out@ =~= outpre + spec_spaces((j + 1) as nat));
                }
                j += 1;
            }
            cmod = 0;
            proof {
                assert(out@ =~= outpre + spec_spaces(k as nat));
            }
        } else {
            out.push(c);
            cmod = (cmod + 1) % 4;
        }
        proof {
            assert(spec_expand_tabs(text@, 0) =~= out@ + spec_expand_tabs(
                text@.skip(i + 1),
                cmod as int,
            ));
        }
        i += 1;
    }
    proof {
        assert(text@.skip(text@.len() as int) =~= Seq::<char>::empty());
        assert(out@ =~= spec_expand_tabs(text@, 0));
    }
    out
}

/// `s` without leading and trailing whitespace.
pub open spec fn spec_trim(s: Seq<char>) -> Seq<char> {
    spec_trim_back(spec_trim_front(s))
}

pub open spec fn spec_trim_front(s: Seq<char>) -> Seq<char>
    decreases s.len(),
{
    if s.len() > 0 && spec_is_blank(seq![s[0]]) {
        spec_trim_front(s.drop_first())
    } else {
        s
    }
}

pub open spec fn spec_trim_back(s: Seq<char>) -> Seq<char>
    decreases s.len(),
{
    if s.len() > 0 && spec_is_blank(seq![s.last()]) {
        spec_trim_back(s.drop_last())
    } else {
        s
    }
}

/// Removes leading and trailing whitespace.
pub fn trim_chars(v: &Vec<char>) -> (r: Vec<char>)
    ensures
        r@ == spec_trim(v@),
{
    let mut a: usize = 0;
    proof {
        assert(v@.skip(0) =~= v@);
    }
    while a < v.len() && crate::text::is_space(v[a])
        invariant
            a <= v@.len(),
            spec_trim_front(v@) == spec_trim_front(v@.skip(a as int)),
        decreases v@.len() - a,
    {
        proof {
            assert(v@.skip(a as int)[0] == v@[a as int]);
            assert(v@.skip(a as int).drop_first() =~= v@.skip(a + 1));
            assert(spec_is_blank(seq![v@[a as int]]));
        }
        a += 1;
    }
    proof {
        if a < v@.len() {
            assert(v@.skip(a as int)[0] == v@[a as int]);
            assert(!spec_is_blank(seq![v@[a as int]])) by {
                assert(seq![v@[a as int]][0] == v@[a as int]);
            }
        }
        assert(spec_trim_front(v@) == v@.skip(a as int));
    }
    let mut b = v.len();
    proof {
        assert(v@.skip(a as int).take(v@.len() - a) =~= v@.skip(a as int));
    }
    while b > a && crate::text::is_space(v[b - 1])
        invariant
            a <= b <= v@.len(),
            spec_trim_front(v@) == v@.skip(a as int),
            spec_trim_back(v@.skip(a as int)) == spec_trim_back(
                v@.skip(a as int).take(b - a),
            ),
        decreases b,
    {
        proof {
            assert(v@.skip(a as int).take(b - a).last() == v@[b - 1]);
            assert(v@.skip(a as int).take(b - a).drop_last() =~= v@.skip(a as int).take(
                b - 1 - a,
            ));
            assert(spec_is_blank(seq![v@[b - 1]]));
        }
        b -= 1;
    }
    proof {
        if b > a {
            assert(v@.skip(a as int).take(b - a).last() == v@[b - 1]);
            assert(!spec_is_blank(seq![v@[b - 1]])) by {
                assert(seq![v@[b - 1]][0] == v@[b - 1]);
            }
        }
        assert(spec_trim_back(v@.skip(a as int).take(b - a)) == v@.skip(a as int).take(b - a));
        assert(v@.skip(a as int).take(b - a) =~= v@.subrange(a as int, b as int));
    }
    crate::text::subrange_vec(v, a, b)
}

/// One compact display line: a plain list item or a labelled value.
#[derive(Debug)]
pub enum CompactLine {
    Item(String),
    KeyValue(String, String),
}

/// The spec-level value of a compact line.
pub enum CompactLineV {
    Item(Seq<char>),
    KeyValue(Seq<char>, Seq<char>),
}

impl View for CompactLine {
    type V = CompactLineV;

    open spec fn view(&self) -> CompactLineV {
        match self {
            CompactLine::Item(t) => CompactLineV::Item(t@),
            CompactLine::KeyValue(k, v) => CompactLineV::KeyValue(k@, v@),
        }
    }
}

pub open spec fn compact_view(ls: Seq<CompactLine>) -> Seq<CompactLineV> {
    ls.map_values(|l: CompactLine| l@)
}

/// The non-blank trimmed lines of a value, as list items.
pub open spec fn spec_path_items(lines: Seq<Seq<char>>) -> Seq<CompactLineV>
    decreases lines.len(),
{
    if lines.len() == 0 {
        Seq::<CompactLineV>::empty()
    } else {
        let t = spec_trim(lines[0]);
        let rest = spec_path_items(lines.drop_first());
        if t.len() == 0 {
            rest
        } else {
            seq![CompactLineV::Item(t)] + rest
        }
    }
}

/// Pushes one trimmed, non-blank value line per item.
fn push_path_items(out: &mut Vec<CompactLine>, value: &str)
    ensures
        compact_view(final(out)@) == compact_view(old(out)@) + spec_path_items(
            spec_lines(value@),
        ),
{
    let cs = chars_of_str(value);
    let lines = lines_of(&cs);
    let ghost lv = lines@.map_values(|seg: Vec<char>| seg@);
    let ghost base = compact_view(out@);
    let mut i: usize = 0;
    proof {
        assert(lv.skip(0) =~= lv);
    }
    while i < lines.len()
        invariant
            i <= lines@.len(),
            lv == lines@.map_values(|seg: Vec<char>| seg@),
            base + spec_path_items(lv) == compact_view(out@) + spec_path_items(
                lv.skip(i as int),
            ),
        decreases lines@.len() - i,
    {
        proof {
            assert(lv.skip(i as int)[0] == lv[i as int]);
            assert(lv.skip(i as int).drop_first() =~= lv.skip(i + 1));
            assert(lv[i as int] == lines@[i as int]@);
        }
        let t = trim_chars(&lines[i]);
        if t.len() > 0 {
            let ghost pre = out@;
            let item = CompactLine::Item(string_of_chars(&t));
            let ghost iv = item;
            out.push(item);
            proof {
                compact_push_lemma(pre, out@, iv);
            }
        }
        proof {
            assert(base + spec_path_items(lv) =~= compact_view(out@) + spec_path_items(
                lv.skip(i + 1),
            ));
        }
        i += 1;
    }
    proof {
        assert(lv.skip(lv.len() as int) =~= Seq::<Seq<char>>::empty());
        assert(compact_view(out@) =~= base + spec_path_items(lv));
    }
}

pub proof fn compact_push_lemma(pre: Seq<CompactLine>, post: Seq<CompactLine>, d: CompactLine)
    requires
        post == pre.push(d),
    ensures
        compact_view(post) == compact_view(pre).push(d@),
{
    assert forall|j: int| 0 <= j < post.len() implies #[trigger] compact_view(post)[j]
        == compact_view(pre).push(d@)[j] by {
        assert(compact_view(post)[j] == post[j]@);
        if j < pre.len() {
            assert(post[j] == pre[j]);
            assert(compact_view(pre)[j] == pre[j]@);
        }
    }
    assert(compact_view(post) =~= compact_view(pre).push(d@));
}

/// The compact display items for a tool block: paths and key identifiers
/// only, never file contents or results.
pub fn compact_lines(t: &ToolUseBlock) -> (r: Vec<CompactLine>)
    requires
        t.spec_wf(),
{
    proof {
        reveal_strlit("read_files");
        reveal_strlit("list_files");
        reveal_strlit("search_files");
        reveal_strlit("glob_files");
        reveal_strlit("web_search");
        reveal_strlit("web_fetch");
        reveal_strlit("paths");
        reveal_strlit("path");
        reveal_strlit("pattern");
        reveal_strlit("regex");
        reveal_strlit("query");
        reveal_strlit("url");
    }
    let mut out: Vec<CompactLine> = Vec::new();
    if str_eq(t.name.as_str(), "read_files") {
        match t.param_value("paths") {
            Some(v) => push_path_items(&mut out, v.as_str()),
            None => {},
        }
    } else if str_eq(t.name.as_str(), "list_files") {
        match t.param_value("path") {
            Some(v) => {
                let vc = chars_of_str(v.as_str());
                let tr = trim_chars(&vc);
                if tr.len() > 0 {
                    out.push(CompactLine::Item(string_of_chars(&tr)));
                }
            },
            None => {},
        }
    } else if str_eq(t.name.as_str(), "search_files") {
        match t.param_value("pattern") {
            Some(v) => {
                out.push(CompactLine::KeyValue(String::from_str("pattern"), v));
            },
            None => {
                match t.param_value("regex") {
                    Some(v) => {
                        out.push(CompactLine::KeyValue(String::from_str("regex"), v));
                    },
                    None => {},
                }
            },
        }
        match t.param_value("path") {
            Some(v) => {
                let vc = chars_of_str(v.as_str());
                let tr = trim_chars(&vc);
                if tr.len() > 0 {
                    out.push(CompactLine::Item(string_of_chars(&tr)));
                }
            },
            None => {},
        }
    } else if str_eq(t.name.as_str(), "glob_files") {
        match t.param_value("pattern") {
            Some(v) => {
                out.push(CompactLine::KeyValue(String::from_str("pattern"), v));
            },
            None => {},
        }
    } else if str_eq(t.name.as_str(), "web_search") {
        match t.param_value("query") {
            Some(v) => {
                out.push(CompactLine::KeyValue(String::from_str("query"), v));
            },
            None => {},
        }
    } else if str_eq(t.name.as_str(), "web_fetch") {
        match t.param_value("url") {
            Some(v) => {
                out.push(CompactLine::KeyValue(String::from_str("url"), v));
            },
            None => {},
        }
    }
    out
}

/// The file path a write tool points at: the `file_path` parameter, or
/// `path`, when non-empty.
pub fn get_file_path(t: &ToolUseBlock) -> (r: Option<String>)
    requires
        t.spec_wf(),
{
    proof {
        reveal_strlit("file_path");
        reveal_strlit("path");
    }
    let first = t.param_value("file_path");
    let v = match first {
        Some(v) => Some(v),
        None => t.param_value("path"),
    };
    match v {
        Some(v) => {
            if v.as_str().is_empty() {
                None
            } else {
                Some(v)
            }
        },
        None => None,
    }
}

/// The diff lines for a write tool, chosen by tool name.
pub fn generate_tool_diff_lines(t: &ToolUseBlock) -> (r: Vec<DiffLine>)
    requires
        t.spec_wf(),
{
    proof {
        reveal_strlit("edit");
        reveal_strlit("replace_in_file");
        reveal_strlit("write_file");
        reveal_strlit("old_text");
        reveal_strlit("new_text");
        reveal_strlit("content");
        reveal_strlit("diff");
    }
    if str_eq(t.name.as_str(), "edit") {
        let old_text = match t.param_value("old_text") {
            Some(v) => v,
            None => String::new(),
        };
        let new_text = match t.param_value("new_text") {
            Some(v) => v,
            None => String::new(),
        };
        if old_text.as_str().is_empty() && new_text.as_str().is_empty() {
            return Vec::new();
        }
        generate_diff_lines(old_text.as_str(), new_text.as_str())
    } else if str_eq(t.name.as_str(), "replace_in_file") {
        let diff = match t.param_value("diff") {
            Some(v) => v,
            None => String::new(),
        };
        if diff.as_str().is_empty() {
            return Vec::new();
        }
        generate_search_replace_diff_lines(diff.as_str())
    } else if str_eq(t.name.as_str(), "write_file") {
        let content = match t.param_value("content") {
            Some(v) => v,
            None => String::new(),
        };
        if content.as_str().is_empty() {
            return Vec::new();
        }
        generate_write_file_diff_lines(content.as_str())
    } else {
        Vec::new()
    }
}

/// `n` spaces, executable.
pub fn spaces_vec(n: usize) -> (r: Vec<char>)
    ensures
        r@ == spec_spaces(n as nat),
{
    let mut r: Vec<char> = Vec::new();
    let mut i: usize = 0;
    while i < n
        invariant
            i <= n,
            r@ == spec_spaces(i as nat),
        decreases n - i,
    {
        r.push(' ');
        proof {
            assert(r@ =~= spec_spaces((i + 1) as nat));
        }
        i += 1;
    }
    r
}

/// A right-aligned line-number gutter: the number padded to `width` columns
/// plus one trailing space.
pub fn gutter_text(line_num: usize, width: usize) -> (r: Vec<char>)
    ensures
        r@.len() == (if spec_decimal(line_num as nat).len() >= width {
            spec_decimal(line_num as nat).len() as int + 1
        } else {
            width as int + 1
        }),
{
    let mut digits: Vec<char> = Vec::new();
    push_decimal(&mut digits, line_num as u64);
    let pad = if digits.len() >= width {
        0
    } else {
        width - digits.len()
    };
    let mut r = spaces_vec(pad);
    append_chars(&mut r, &digits);
    r.push(' ');
    r
}

/// The history form of a diff: a dim gutter, `+` insertions in green, `-`
/// deletions in red, dim gray context, and a vertical-ellipsis hunk
/// separator, all on the tool-content background.
pub fn render_diff_to_history_lines(
    diff_lines: &Vec<DiffLine>,
    lines: &mut Vec<StyledLine>,
    bg: ratatui::style::Color,
)
    ensures
        final(lines)@.len() == old(lines)@.len() + diff_lines@.len(),
        forall|j: int|
            0 <= j < old(lines)@.len() ==> #[trigger] final(lines)@[j] == old(lines)@[j],
{
    proof {
        reveal_strlit("  ");
        reveal_strlit("\u{22ee}");
    }
    let max_ln = max_line_number(diff_lines);
    let gw = line_number_width(max_ln);
    let bg_style = TextStyle::plain().with_bg(bg);
    let mut i: usize = 0;
    while i < diff_lines.len()
        invariant
            i <= diff_lines@.len(),
            lines@.len() == old(lines)@.len() + i,
            forall|j: int|
                0 <= j < old(lines)@.len() ==> #[trigger] lines@[j] == old(lines)@[j],
        decreases diff_lines@.len() - i,
    {
        let dim_style = TextStyle { fg: None, bg: Some(bg), mods: MOD_DIM };
        let line = match &diff_lines[i] {
            DiffLine::HunkSeparator => {
                let mut spans: Vec<StyledSpan> = Vec::new();
                let mut g = chars_of_str("  ");
                let pad = spaces_vec(gw);
                append_chars(&mut g, &pad);
                g.push(' ');
                spans.push(StyledSpan::new(string_of_chars(&g), dim_style));
                spans.push(StyledSpan::new(String::from_str("\u{22ee}"), dim_style));
                StyledLine::from_spans(spans).with_style(bg_style)
            },
            DiffLine::Context { line_num, text } => diff_history_line(
                *line_num,
                text,
                gw,
                ' ',
                TextStyle { fg: Some(ratatui::style::Color::Gray), bg: Some(bg), mods: MOD_DIM },
                dim_style,
                bg_style,
            ),
            DiffLine::Insert { line_num, text } => diff_history_line(
                *line_num,
                text,
                gw,
                '+',
                TextStyle { fg: Some(ratatui::style::Color::Green), bg: Some(bg), mods: 0 },
                dim_style,
                bg_style,
            ),
            DiffLine::Delete { line_num, text } => diff_history_line(
                *line_num,
                text,
                gw,
                '-',
                TextStyle { fg: Some(ratatui::style::Color::Red), bg: Some(bg), mods: 0 },
                dim_style,
                bg_style,
            ),
        };
        lines.push(line);
        i += 1;
    }
}

/// One gutter-plus-content history line of a diff.
fn diff_history_line(
    line_num: usize,
    text: &String,
    gw: usize,
    marker: char,
    content_style: TextStyle,
    dim_style: TextStyle,
    bg_style: TextStyle,
) -> (r: StyledLine) {
    proof {
        reveal_strlit("  ");
    }
    let mut g = chars_of_str("  ");
    let gut = gutter_text(line_num, gw);
    append_chars(&mut g, &gut);
    let mut body: Vec<char> = Vec::new();
    body.push(marker);
    let tc = chars_of_str(text.as_str());
    let expanded = expand_tabs(&tc);
    append_chars(&mut body, &expanded);
    let mut spans: Vec<StyledSpan> = Vec::new();
    spans.push(StyledSpan::new(string_of_chars(&g), dim_style));
    spans.push(StyledSpan::new(string_of_chars(&body), content_style));
    StyledLine::from_spans(spans).with_style(bg_style)
}

/// Which built-in renderer handles a tool, by name.
#[derive(Clone, Copy, Debug, PartialEq, Eq, Structural)]
pub enum ToolRendererKind {
    Compact,
    Command,
    Diff,
}

/// The registry table: read/explore tools render compactly, command
/// execution renders with its output, write tools render as diffs; unknown
/// tools fall back to generic parameter rendering.
pub open spec fn spec_registry_get(name: Seq<char>) -> Option<ToolRendererKind> {
    if name == "read_files"@ || name == "list_files"@ || name == "list_projects"@ || name
        == "search_files"@ || name == "glob_files"@ || name == "web_search"@ || name
        == "web_fetch"@ {
        Some(ToolRendererKind::Compact)
    } else if name == "execute_command"@ {
        Some(ToolRendererKind::Command)
    } else if name == "edit"@ || name == "write_file"@ || name == "replace_in_file"@ {
        Some(ToolRendererKind::Diff)
    } else {
        None
    }
}

pub fn registry_get(name: &str) -> (r: Option<ToolRendererKind>)
    ensures
        r == spec_registry_get(name@),
{
    proof {
        reveal_strlit("read_files");
        reveal_strlit("list_files");
        reveal_strlit("list_projects");
        reveal_strlit("search_files");
        reveal_strlit("glob_files");
        reveal_strlit("web_search");
        reveal_strlit("web_fetch");
        reveal_strlit("execute_command");
        reveal_strlit("edit");
        reveal_strlit("write_file");
        reveal_strlit("replace_in_file");
    }
    if str_eq(name, "read_files") || str_eq(name, "list_files") || str_eq(name, "list_projects")
        || str_eq(name, "search_files") || str_eq(name, "glob_files") || str_eq(name, "web_search")
        || str_eq(name, "web_fetch") {
        Some(ToolRendererKind::Compact)
    } else if str_eq(name, "execute_command") {
        Some(ToolRendererKind::Command)
    } else if str_eq(name, "edit") || str_eq(name, "write_file") || str_eq(name, "replace_in_file")
    {
        Some(ToolRendererKind::Diff)
    } else {
        None
    }
}

/// The scrollback lines of one tool block, dispatched through the registry;
/// every form starts with the `● name` header line.
pub fn tool_history_lines(t: &ToolUseBlock, bg: ratatui::style::Color) -> (r: Vec<StyledLine>)
    requires
        t.spec_wf(),
    ensures
        r@.len() >= 1,
        r@[0]@.spans.len() >= 2,
        r@[0]@.spans[0].content == "\u{25cf} "@,
        r@[0]@.spans[1].content == t.name@,
{
    match registry_get(t.name.as_str()) {
        Some(ToolRendererKind::Compact) => compact_history_lines(t),
        Some(ToolRendererKind::Command) => command_history_lines(t, bg),
        Some(ToolRendererKind::Diff) => diff_tool_history_lines(t, bg),
        None => fallback_history_lines(t),
    }
}

/// Compact scrollback form: header, one line per identifier, error line.
pub fn compact_history_lines(t: &ToolUseBlock) -> (r: Vec<StyledLine>)
    requires
        t.spec_wf(),
    ensures
        r@.len() >= 1,
        r@[0]@.spans.len() >= 2,
        r@[0]@.spans[0].content == "\u{25cf} "@,
        r@[0]@.spans[1].content == t.name@,
{
    proof {
        reveal_strlit("  - ");
        reveal_strlit("  ");
        reveal_strlit(": ");
    }
    let mut lines: Vec<StyledLine> = Vec::new();
    lines.push(tool_header_line(t));
    let items = compact_lines(t);
    let mut i: usize = 0;
    while i < items.len()
        invariant
            i <= items@.len(),
            lines@.len() >= 1,
            lines@[0]@.spans.len() >= 2,
            lines@[0]@.spans[0].content == "\u{25cf} "@,
            lines@[0]@.spans[1].content == t.name@,
        decreases items@.len() - i,
    {
        let ghost pre0 = lines@[0];
        match &items[i] {
            CompactLine::Item(text) => {
                let mut spans: Vec<StyledSpan> = Vec::new();
                spans.push(
                    StyledSpan::new(
                        String::from_str("  - "),
                        TextStyle::plain().with_fg(ratatui::style::Color::DarkGray),
                    ),
                );
                let tc = chars_of_str(text.as_str());
                spans.push(
                    StyledSpan::new(
                        string_of_chars(&tc),
                        TextStyle::plain().with_fg(ratatui::style::Color::Gray),
                    ),
                );
                lines.push(StyledLine::from_spans(spans));
            },
            CompactLine::KeyValue(key, value) => {
                let mut spans: Vec<StyledSpan> = Vec::new();
                spans.push(StyledSpan::raw(String::from_str("  ")));
                let kc = chars_of_str(key.as_str());
                spans.push(
                    StyledSpan::new(
                        string_of_chars(&kc),
                        TextStyle { fg: Some(ratatui::style::Color::Cyan), bg: None, mods: MOD_DIM },
                    ),
                );
                spans.push(
                    StyledSpan::new(
                        String::from_str(": "),
                        TextStyle::plain().with_fg(ratatui::style::Color::White),
                    ),
                );
                let vc = chars_of_str(value.as_str());
                spans.push(
                    StyledSpan::new(
                        string_of_chars(&vc),
                        TextStyle::plain().with_fg(ratatui::style::Color::Gray),
                    ),
                );
                lines.push(StyledLine::from_spans(spans));
            },
        }
        proof {
            assert(lines@[0] == pre0);
        }
        i += 1;
    }
    push_error_history_line(t, &mut lines);
    proof {
        assert(lines@[0]@.spans[0].content == "\u{25cf} "@);
    }
    lines
}

/// Command scrollback form: header, the `$ command` line, the output lines
/// (tabs expanded) on the tinted background, error line.
pub fn command_history_lines(t: &ToolUseBlock, bg: ratatui::style::Color) -> (r: Vec<StyledLine>)
    requires
        t.spec_wf(),
    ensures
        r@.len() >= 1,
        r@[0]@.spans.len() >= 2,
        r@[0]@.spans[0].content == "\u{25cf} "@,
        r@[0]@.spans[1].content == t.name@,
{
    proof {
        reveal_strlit("command_line");
        reveal_strlit("  $ ");
        reveal_strlit("  ");
    }
    let mut lines: Vec<StyledLine> = Vec::new();
    lines.push(tool_header_line(t));
    let bg_style = TextStyle::plain().with_bg(bg);
    match t.param_value("command_line") {
        Some(cmd) => {
            let ghost pre0 = lines@[0];
            let mut spans: Vec<StyledSpan> = Vec::new();
            spans.push(
                StyledSpan::new(
                    String::from_str("  $ "),
                    TextStyle { fg: Some(ratatui::style::Color::DarkGray), bg: Some(bg), mods: MOD_BOLD },
                ),
            );
            spans.push(
                StyledSpan::new(
                    cmd,
                    TextStyle { fg: Some(ratatui::style::Color::White), bg: Some(bg), mods: 0 },
                ),
            );
            lines.push(StyledLine::from_spans(spans).with_style(bg_style));
            proof {
                assert(lines@[0] == pre0);
            }
        },
        None => {},
    }
    match &t.output {
        Some(output) => {
            let oc = chars_of_str(output.as_str());
            let olines = lines_of(&oc);
            let mut i: usize = 0;
            while i < olines.len()
                invariant
                    i <= olines@.len(),
                    lines@.len() >= 1,
                    lines@[0]@.spans.len() >= 2,
                    lines@[0]@.spans[0].content == "\u{25cf} "@,
                    lines@[0]@.spans[1].content == t.name@,
                decreases olines@.len() - i,
            {
                let ghost pre0 = lines@[0];
                let mut spans: Vec<StyledSpan> = Vec::new();
                let mut body = chars_of_str("  ");
                let expanded = expand_tabs(&olines[i]);
                append_chars(&mut body, &expanded);
                spans.push(
                    StyledSpan::new(
                        string_of_chars(&body),
                        TextStyle { fg: Some(ratatui::style::Color::Gray), bg: Some(bg), mods: 0 },
                    ),
                );
                lines.push(StyledLine::from_spans(spans).with_style(bg_style));
                proof {
                    assert(lines@[0] == pre0);
                }
                i += 1;
            }
        },
        None => {},
    }
    push_error_history_line(t, &mut lines);
    proof {
        assert(lines@[0]@.spans[0].content == "\u{25cf} "@);
    }
    lines
}

/// Diff scrollback form: header, file path, numbered colored diff, error
/// line.
pub fn diff_tool_history_lines(t: &ToolUseBlock, bg: ratatui::style::Color) -> (r: Vec<
    StyledLine,
>)
    requires
        t.spec_wf(),
    ensures
        r@.len() >= 1,
        r@[0]@.spans.len() >= 2,
        r@[0]@.spans[0].content == "\u{25cf} "@,
        r@[0]@.spans[1].content == t.name@,
{
    proof {
        reveal_strlit("  ");
    }
    let mut lines: Vec<StyledLine> = Vec::new();
    lines.push(tool_header_line(t));
    match get_file_path(t) {
        Some(path) => {
            let ghost pre0 = lines@[0];
            let mut spans: Vec<StyledSpan> = Vec::new();
            spans.push(StyledSpan::raw(String::from_str("  ")));
            spans.push(
                StyledSpan::new(path, TextStyle::plain().with_fg(ratatui::style::Color::Gray)),
            );
            lines.push(StyledLine::from_spans(spans));
            proof {
                assert(lines@[0] == pre0);
            }
        },
        None => {},
    }
    let diff = generate_tool_diff_lines(t);
    let ghost pre0 = lines@[0];
    render_diff_to_history_lines(&diff, &mut lines, bg);
    proof {
        assert(lines@[0] == pre0);
    }
    push_error_history_line(t, &mut lines);
    proof {
        assert(lines@[0]@.spans[0].content == "\u{25cf} "@);
    }
    lines
}

/// Generic fallback scrollback form: header, `  name: value` parameter
/// lines, the error line, and plain output lines.
pub fn fallback_history_lines(t: &ToolUseBlock) -> (r: Vec<StyledLine>)
    requires
        t.spec_wf(),
    ensures
        r@.len() >= 1,
        r@[0]@.spans.len() >= 2,
        r@[0]@.spans[0].content == "\u{25cf} "@,
        r@[0]@.spans[1].content == t.name@,
{
    proof {
        reveal_strlit("  ");
        reveal_strlit(": ");
    }
    let mut lines: Vec<StyledLine> = Vec::new();
    lines.push(tool_header_line(t));
    let mut p: usize = 0;
    while p < t.parameters.len()
        invariant
            p <= t.parameters@.len(),
            lines@.len() >= 1,
            lines@[0]@.spans.len() >= 2,
            lines@[0]@.spans[0].content == "\u{25cf} "@,
            lines@[0]@.spans[1].content == t.name@,
        decreases t.parameters@.len() - p,
    {
        let vc = chars_of_str(t.parameters[p].value.value.as_str());
        let vlines = lines_of(&vc);
        let mut i: usize = 0;
        while i < vlines.len()
            invariant
                i <= vlines@.len(),
                p < t.parameters@.len(),
                lines@.len() >= 1,
                lines@[0]@.spans.len() >= 2,
                lines@[0]@.spans[0].content == "\u{25cf} "@,
                lines@[0]@.spans[1].content == t.name@,
            decreases vlines@.len() - i,
        {
            let ghost pre0 = lines@[0];
            let mut body = chars_of_str("  ");
            let nc = chars_of_str(t.parameters[p].name.as_str());
            append_chars(&mut body, &nc);
            let sep = chars_of_str(": ");
            append_chars(&mut body, &sep);
            append_chars(&mut body, &vlines[i]);
            lines.push(StyledLine::from_span(StyledSpan::raw(string_of_chars(&body))));
            proof {
                assert(lines@[0] == pre0);
            }
            i += 1;
        }
        p += 1;
    }
    push_error_history_line(t, &mut lines);
    match &t.output {
        Some(output) => {
            let oc = chars_of_str(output.as_str());
            let olines = lines_of(&oc);
            let mut i: usize = 0;
            while i < olines.len()
                invariant
                    i <= olines@.len(),
                    lines@.len() >= 1,
                    lines@[0]@.spans.len() >= 2,
                    lines@[0]@.spans[0].content == "\u{25cf} "@,
                    lines@[0]@.spans[1].content == t.name@,
                decreases olines@.len() - i,
            {
                let ghost pre0 = lines@[0];
                let mut body = chars_of_str("  ");
                append_chars(&mut body, &olines[i]);
                lines.push(StyledLine::from_span(StyledSpan::raw(string_of_chars(&body))));
                proof {
                    assert(lines@[0] == pre0);
                }
                i += 1;
            }
        },
        None => {},
    }
    proof {
        assert(lines@[0]@.spans[0].content == "\u{25cf} "@);
    }
    lines
}

} // verus!



