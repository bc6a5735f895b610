//! The input manager around the textarea: key routing, bracketed-paste
//! handling with large-paste placeholders, image attachments, and submit
//! content assembly (placeholders expanded back to the pasted text).

use vstd::prelude::*;
use crate::textarea::{TextArea, KeyEvent, KeyCode, KeyModifiers, spec_key_action, EditAction};
use crate::text::{
    chars_of_str,
    string_of_chars,
    append_chars,
    replace_all,
    spec_replace,
    spec_lines,
    count_lines,
    push_decimal,
    spec_decimal,
};

verus! {

/// Pastes longer than this many characters collapse into a placeholder.
pub const LARGE_PASTE_CHAR_THRESHOLD: usize = 200;

/// An attachment accumulated from paste operations.
#[derive(Debug, Clone)]
pub enum DraftAttachment {
    Image {
        content: String,
        mime_type: String,
        width: Option<u32>,
        height: Option<u32>,
    },
}

/// What the caller should do after one key event.
#[derive(Debug)]
pub enum KeyEventResult {
    /// Keep going; the textarea may have changed.
    Continue,
    /// Quit the application.
    Quit,
    /// Submit a message with its attachments.
    SendMessage { message: String, attachments: Vec<DraftAttachment> },
    /// Escape was pressed; the caller decides what to dismiss.
    Escape,
    /// The caller should try to read an image from the system clipboard and,
    /// if one is there, hand it to `attach_image`.
    RequestImagePaste,
    /// Display an informational message.
    ShowInfo(String),
    /// Switch to another model.
    SwitchModel(String),
    /// Show the current model.
    ShowCurrentModel,
    /// Toggle the plan view.
    TogglePlan,
}

/// The paste text after newline normalization: `\r\n` and bare `\r` both
/// become `\n`.
pub open spec fn spec_normalize_newlines(s: Seq<char>) -> Seq<char> {
    spec_replace(spec_replace(s, seq!['\r', '\n'], seq!['\n']), seq!['\r'], seq!['\n'])
}

/// The placeholder text shown for the `counter`-th large paste of
/// `line_count` lines.
pub open spec fn spec_paste_placeholder(line_count: nat, counter: nat) -> Seq<char> {
    "[Pasted "@ + spec_decimal(line_count) + " lines]"@ + (if counter == 1 {
        Seq::<char>::empty()
    } else {
        " #"@ + spec_decimal(counter)
    })
}

/// The submitted message: every recorded placeholder replaced by its pasted
/// content, in recording order.
pub open spec fn spec_expand_pastes(s: Seq<char>, ps: Seq<(Seq<char>, Seq<char>)>) -> Seq<char>
    decreases ps.len(),
{
    if ps.len() == 0 {
        s
    } else {
        spec_expand_pastes(spec_replace(s, ps[0].0, ps[0].1), ps.drop_first())
    }
}

/// The view of the recorded pastes: placeholder and content character
/// sequences.
pub open spec fn spec_pastes_view(ps: Seq<(String, String)>) -> Seq<(Seq<char>, Seq<char>)> {
    ps.map_values(|p: (String, String)| (p.0@, p.1@))
}

pub struct InputManager {
    pub textarea: TextArea,
    /// Attachments accumulated from paste operations (images).
    pub attachments: Vec<DraftAttachment>,
    /// Counter for image paste placeholders.
    pub image_counter: usize,
    /// Placeholder text and the pasted content it stands for, in order.
    pub pending_pastes: Vec<(String, String)>,
    /// Per-line-count counters for unique large-paste placeholders.
    pub large_paste_counters: Vec<(usize, usize)>,
}

impl InputManager {
    pub open spec fn spec_wf(self) -> bool {
        self.textarea.spec_wf()
    }

    pub fn new() -> (r: InputManager)
        ensures
            r.spec_wf(),
            r.textarea.text@.len() == 0,
            r.attachments@.len() == 0,
            r.image_counter == 0,
            r.pending_pastes@.len() == 0,
            r.large_paste_counters@.len() == 0,
    {
        InputManager {
            textarea: TextArea::new(),
            attachments: Vec::new(),
            image_counter: 0,
            pending_pastes: Vec::new(),
            large_paste_counters: Vec::new(),
        }
    }

    /// Clears the textarea and all paste state.
    pub fn clear(&mut self)
        ensures
            final(self).spec_wf(),
            final(self).textarea.text@.len() == 0,
            final(self).attachments@.len() == 0,
            final(self).image_counter == 0,
            final(self).pending_pastes@.len() == 0,
            final(self).large_paste_counters@.len() == 0,
    {
        self.textarea.clear();
        self.attachments = Vec::new();
        self.image_counter = 0;
        self.pending_pastes = Vec::new();
        self.large_paste_counters = Vec::new();
    }

    /// Takes the accumulated attachments, leaving the list empty.
    pub fn take_attachments(&mut self) -> (r: Vec<DraftAttachment>)
        ensures
            r@ == old(self).attachments@,
            final(self).attachments@.len() == 0,
            final(self).textarea == old(self).textarea,
            final(self).image_counter == old(self).image_counter,
            final(self).pending_pastes == old(self).pending_pastes,
            final(self).large_paste_counters == old(self).large_paste_counters,
    {
        let mut out: Vec<DraftAttachment> = Vec::new();
        core::mem::swap(&mut out, &mut self.attachments);
        out
    }

    /// The next large-paste placeholder for a paste of `line_count` lines:
    /// the plain form for the first such paste, a numbered form for repeats.
    pub fn next_large_paste_placeholder(&mut self, line_count: usize) -> (r: String)
        ensures
            final(self).textarea == old(self).textarea,
            final(self).attachments == old(self).attachments,
            final(self).image_counter == old(self).image_counter,
            final(self).pending_pastes == old(self).pending_pastes,
            r@ == spec_paste_placeholder(
                line_count as nat,
                spec_counter_for(final(self).large_paste_counters@, line_count) as nat,
            ),
            spec_counter_for(final(self).large_paste_counters@, line_count) >= 1,
            spec_counter_for(old(self).large_paste_counters@, line_count) < usize::MAX
                ==> spec_counter_for(final(self).large_paste_counters@, line_count)
                == spec_counter_for(old(self).large_paste_counters@, line_count) + 1,
    {
        let prev = self.bump_counter(line_count);
        let counter = prev + 1;
        proof {
            reveal_strlit("[Pasted ");
            reveal_strlit(" lines]");
            reveal_strlit(" #");
        }
        let mut out = chars_of_str("[Pasted ");
        push_decimal(&mut out, line_count as u64);
        let tail = chars_of_str(" lines]");
        append_chars(&mut out, &tail);
        if counter != 1 {
            let hash = chars_of_str(" #");
            append_chars(&mut out, &hash);
            push_decimal(&mut out, counter as u64);
        }
        proof {
            assert(out@ =~= spec_paste_placeholder(line_count as nat, counter as nat));
        }
        string_of_chars(&out)
    }

    /// Increments (or creates) the counter for `line_count` and returns its
    /// previous value.
    fn bump_counter(&mut self, line_count: usize) -> (prev: usize)
        ensures
            final(self).textarea == old(self).textarea,
            final(self).attachments == old(self).attachments,
            final(self).image_counter == old(self).image_counter,
            final(self).pending_pastes == old(self).pending_pastes,
            prev < usize::MAX,
            spec_counter_for(old(self).large_paste_counters@, line_count) < usize::MAX
                ==> prev == spec_counter_for(old(self).large_paste_counters@, line_count),
            spec_counter_for(final(self).large_paste_counters@, line_count) == prev + 1,
    {
        let mut i: usize = 0;
        while i < self.large_paste_counters.len()
            invariant
                *self == *old(self),
                i <= self.large_paste_counters@.len(),
                forall|j: int|
                    0 <= j < i ==> (#[trigger] self.large_paste_counters@[j]).0 != line_count,
            decreases self.large_paste_counters@.len() - i,
        {
            let (k, v) = self.large_paste_counters[i];
            if k == line_count {
                let prev = if v < usize::MAX {
                    v
                } else {
                    usize::MAX - 1
                };
                let ghost old_list = self.large_paste_counters@;
                self.large_paste_counters.set(i, (line_count, prev + 1));
                proof {
                    lemma_counter_for_update(old_list, i as int, line_count, (prev + 1) as usize);
                    lemma_counter_for_found(old_list, i as int, line_count);
                }
                return prev;
            }
            i += 1;
        }
        let ghost old_list = self.large_paste_counters@;
        self.large_paste_counters.push((line_count, 1));
        proof {
            lemma_counter_for_missing(old_list, line_count);
            lemma_counter_for_push_new(old_list, line_count, 1);
        }
        0
    }

    /// Handles one bracketed-paste event. Newlines are normalized; a paste
    /// longer than the threshold shows as a placeholder element whose real
    /// content is recorded for submit-time expansion, a short one is
    /// inserted directly.
    pub fn handle_paste(&mut self, pasted: String)
        requires
            old(self).spec_wf(),
        ensures
            final(self).spec_wf(),
            ({
                let norm = spec_normalize_newlines(pasted@);
                let ta = old(self).textarea;
                if norm.len() > LARGE_PASTE_CHAR_THRESHOLD {
                    let ph = spec_paste_placeholder(
                        spec_lines(norm).len(),
                        spec_counter_for(
                            final(self).large_paste_counters@,
                            spec_lines(norm).len() as usize,
                        ) as nat,
                    );
                    &&& final(self).textarea.text@ == ta.text@.take(ta.cursor_pos as int) + ph
                        + ta.text@.skip(ta.cursor_pos as int)
                    &&& spec_pastes_view(final(self).pending_pastes@) == spec_pastes_view(
                        old(self).pending_pastes@,
                    ).push((ph, norm))
                    &&& ph.len() > 0 && ta.elements@.len() == 0
                        ==> final(self).textarea.elements@ =~= seq![
                        crate::textarea::ElementRange {
                            start: ta.cursor_pos,
                            end: (ta.cursor_pos + ph.len()) as usize,
                        },
                    ]
                } else {
                    &&& final(self).textarea.text@ == ta.text@.take(ta.cursor_pos as int) + norm
                        + ta.text@.skip(ta.cursor_pos as int)
                    &&& final(self).pending_pastes == old(self).pending_pastes
                }
            }),
            final(self).attachments == old(self).attachments,
            final(self).image_counter == old(self).image_counter,
    {
        let raw = chars_of_str(pasted.as_str());
        let crlf = chars_of_str("\r\n");
        let lf = chars_of_str("\n");
        let cr = chars_of_str("\r");
        proof {
            reveal_strlit("\r\n");
            reveal_strlit("\n");
            reveal_strlit("\r");
            assert(crlf@ =~= seq!['\r', '\n']);
            assert(lf@ =~= seq!['\n']);
            assert(cr@ =~= seq!['\r']);
        }
        let step1 = replace_all(&raw, &crlf, &lf);
        let norm = replace_all(&step1, &cr, &lf);
        if norm.len() > LARGE_PASTE_CHAR_THRESHOLD {
            let line_count = count_lines(&norm);
            let placeholder = self.next_large_paste_placeholder(line_count);
            self.textarea.insert_element(placeholder.as_str());
            let content = string_of_chars(&norm);
            let ghost before = spec_pastes_view(self.pending_pastes@);
            self.pending_pastes.push((placeholder, content));
            proof {
                assert(spec_pastes_view(self.pending_pastes@) =~= before.push(
                    (placeholder@, norm@),
                ));
            }
        } else {
            let content = string_of_chars(&norm);
            self.textarea.insert_str(content.as_str());
        }
    }

    /// Registers a clipboard image: stores the attachment and inserts an
    /// `[Image k]` placeholder element at the cursor.
    pub fn attach_image(
        &mut self,
        content: String,
        mime_type: String,
        width: Option<u32>,
        height: Option<u32>,
    )
        requires
            old(self).spec_wf(),
            old(self).image_counter < usize::MAX,
        ensures
            final(self).spec_wf(),
            final(self).image_counter == old(self).image_counter + 1,
            final(self).attachments@.len() == old(self).attachments@.len() + 1,
            final(self).textarea.text@ == old(self).textarea.text@.take(
                old(self).textarea.cursor_pos as int,
            ) + "[Image "@ + spec_decimal((old(self).image_counter + 1) as nat) + "]"@ + old(
                self,
            ).textarea.text@.skip(old(self).textarea.cursor_pos as int),
            final(self).pending_pastes == old(self).pending_pastes,
    {
        proof {
            reveal_strlit("[Image ");
            reveal_strlit("]");
        }
        self.image_counter = self.image_counter + 1;
        let mut out = chars_of_str("[Image ");
        push_decimal(&mut out, self.image_counter as u64);
        let close = chars_of_str("]");
        append_chars(&mut out, &close);
        let placeholder = string_of_chars(&out);
        self.attachments.push(
            DraftAttachment::Image { content, mime_type, width, height },
        );
        self.textarea.insert_element(placeholder.as_str());
        proof {
            assert(self.textarea.text@ =~= old(self).textarea.text@.take(
                old(self).textarea.cursor_pos as int,
            ) + "[Image "@ + spec_decimal((old(self).image_counter + 1) as nat) + "]"@ + old(
                self,
            ).textarea.text@.skip(old(self).textarea.cursor_pos as int));
        }
    }

    /// The message as it would be submitted: the textarea text with every
    /// recorded placeholder expanded back to its pasted content.
    pub fn build_submit_content(&self) -> (r: String)
        ensures
            r@ == spec_expand_pastes(
                self.textarea.text@,
                spec_pastes_view(self.pending_pastes@),
            ),
    {
        let mut acc = self.textarea.text.clone();
        let ghost ps = spec_pastes_view(self.pending_pastes@);
        proof {
            assert(ps.skip(0) =~= ps);
        }
        let mut i: usize = 0;
        while i < self.pending_pastes.len()
            invariant
                i <= self.pending_pastes@.len(),
                ps == spec_pastes_view(self.pending_pastes@),
                spec_expand_pastes(self.textarea.text@, ps) == spec_expand_pastes(
                    acc@,
                    ps.skip(i as int),
                ),
            decreases self.pending_pastes@.len() - i,
        {
            proof {
                assert(ps.skip(i as int)[0] == ps[i as int]);
                assert(ps.skip(i as int).drop_first() =~= ps.skip(i + 1));
            }
            let pat = chars_of_str(self.pending_pastes[i].0.as_str());
            let rep = chars_of_str(self.pending_pastes[i].1.as_str());
            acc = replace_all(&acc, &pat, &rep);
            i += 1;
        }
        proof {
            assert(ps.skip(ps.len() as int) =~= Seq::<(Seq<char>, Seq<char>)>::empty());
        }
        string_of_chars(&acc)
    }

    /// Routes one key event: quit, escape, image-paste request and submit
    /// are decided here; everything else edits the textarea.
    pub fn handle_key_event(&mut self, event: KeyEvent) -> (r: KeyEventResult)
        requires
            old(self).spec_wf(),
        ensures
            final(self).spec_wf(),
            spec_is_quit(event) ==> r is Quit && *final(self) == *old(self),
            spec_is_escape(event) ==> r is Escape && *final(self) == *old(self),
            spec_is_image_paste(event) ==> r is RequestImagePaste && *final(self) == *old(self),
            spec_is_submit(event) ==> ({
                let content = spec_expand_pastes(
                    old(self).textarea.text@,
                    spec_pastes_view(old(self).pending_pastes@),
                );
                if content.len() == 0 {
                    r is Continue && *final(self) == *old(self)
                } else {
                    &&& r matches KeyEventResult::SendMessage { message, attachments } && message@
                        == content && attachments@ == old(self).attachments@
                    &&& final(self).textarea.text@.len() == 0
                    &&& final(self).attachments@.len() == 0
                    &&& final(self).pending_pastes@.len() == 0
                }
            }),
            // Shift+Enter inserts a newline at the cursor.
            (event.code is Enter && event.modifiers == KeyModifiers::spec_shift()) ==> {
                &&& r is Continue
                &&& final(self).textarea.text@ == old(self).textarea.text@.take(
                    old(self).textarea.cursor_pos as int,
                ) + seq!['\n'] + old(self).textarea.text@.skip(
                    old(self).textarea.cursor_pos as int,
                )
                &&& spec_manager_frame(*old(self), *final(self))
            },
            // Every other key edits the textarea through its keybinding
            // table; the paste and attachment state never changes, and the
            // typed-character and ignore arms are pinned here (the rest on
            // `TextArea::input`).
            (!spec_is_quit(event) && !spec_is_image_paste(event) && !spec_is_escape(event)
                && !spec_is_submit(event) && !(event.code is Enter && event.modifiers
                == KeyModifiers::spec_shift())) ==> {
                &&& r is Continue
                &&& spec_manager_frame(*old(self), *final(self))
                &&& (spec_key_action(event) matches EditAction::InsertChar(c) ==> {
                    &&& final(self).textarea.text@ == old(self).textarea.text@.take(
                        old(self).textarea.cursor_pos as int,
                    ) + seq![c] + old(self).textarea.text@.skip(
                        old(self).textarea.cursor_pos as int,
                    )
                    &&& final(self).textarea.cursor_pos == old(self).textarea.cursor_pos + 1
                })
                &&& (spec_key_action(event) is Ignore ==> final(self).textarea == old(
                    self,
                ).textarea)
                &&& (spec_key_action(event) is MoveLeft ==> final(self).textarea.cursor_pos
                    == crate::textarea::spec_prev_boundary(
                    old(self).textarea.elements@,
                    old(self).textarea.cursor_pos as int,
                ) && final(self).textarea.text == old(self).textarea.text)
                &&& (spec_key_action(event) is MoveRight ==> final(self).textarea.cursor_pos
                    == crate::textarea::spec_next_boundary(
                    old(self).textarea.elements@,
                    old(self).textarea.cursor_pos as int,
                    old(self).textarea.text@.len() as int,
                ) && final(self).textarea.text == old(self).textarea.text)
            },
    {
        if matches_ctrl_char(event, 'c') {
            return KeyEventResult::Quit;
        }
        if is_image_paste_key(event) {
            return KeyEventResult::RequestImagePaste;
        }
        if is_escape_key(event) {
            return KeyEventResult::Escape;
        }
        if is_shift_enter(event) {
            self.textarea.insert_str("\n");
            proof {
                reveal_strlit("\n");
                assert("\n"@ =~= seq!['\n']);
            }
            return KeyEventResult::Continue;
        }
        if is_bare_enter(event) {
            let content = self.build_submit_content();
            let cs = chars_of_str(content.as_str());
            if cs.len() == 0 {
                return KeyEventResult::Continue;
            }
            let attachments = self.take_attachments();
            self.clear();
            return KeyEventResult::SendMessage { message: content, attachments };
        }
        self.textarea.input(event);
        KeyEventResult::Continue
    }
}

/// The paste and attachment state a textarea edit leaves untouched.
pub open spec fn spec_manager_frame(a: InputManager, b: InputManager) -> bool {
    &&& b.attachments == a.attachments
    &&& b.image_counter == a.image_counter
    &&& b.pending_pastes == a.pending_pastes
    &&& b.large_paste_counters == a.large_paste_counters
}

/// Ctrl-C: quit.
pub open spec fn spec_is_quit(e: KeyEvent) -> bool {
    e.code == KeyCode::Char('c') && e.modifiers == KeyModifiers::spec_control()
}

/// Ctrl-V or Alt-V: ask the host to read a clipboard image.
pub open spec fn spec_is_image_paste(e: KeyEvent) -> bool {
    e.code == KeyCode::Char('v') && !spec_is_quit(e) && (e.modifiers.control || e.modifiers.alt)
}

/// A bare Escape.
pub open spec fn spec_is_escape(e: KeyEvent) -> bool {
    e.code is Esc && e.modifiers == KeyModifiers::spec_none() && !spec_is_quit(e)
        && !spec_is_image_paste(e)
}

/// A bare Enter: submit.
pub open spec fn spec_is_submit(e: KeyEvent) -> bool {
    e.code is Enter && e.modifiers == KeyModifiers::spec_none()
}

fn matches_ctrl_char(e: KeyEvent, c: char) -> (r: bool)
    ensures
        r == (e.code == KeyCode::Char(c) && e.modifiers == KeyModifiers::spec_control()),
{
    match e.code {
        KeyCode::Char(x) => x == c && e.modifiers == (KeyModifiers {
            shift: false,
            control: true,
            alt: false,
        }),
        _ => false,
    }
}

fn is_image_paste_key(e: KeyEvent) -> (r: bool)
    ensures
        r == spec_is_image_paste(e),
{
    match e.code {
        KeyCode::Char(x) => x == 'v' && !(x == 'c' && e.modifiers == (KeyModifiers {
            shift: false,
            control: true,
            alt: false,
        })) && (e.modifiers.control || e.modifiers.alt),
        _ => false,
    }
}

fn is_escape_key(e: KeyEvent) -> (r: bool)
    ensures
        r == spec_is_escape(e),
{
    match e.code {
        KeyCode::Esc => e.modifiers == (KeyModifiers { shift: false, control: false, alt: false }),
        _ => false,
    }
}

fn is_shift_enter(e: KeyEvent) -> (r: bool)
    ensures
        r == (e.code is Enter && e.modifiers == KeyModifiers::spec_shift()),
{
    match e.code {
        KeyCode::Enter => e.modifiers == (KeyModifiers { shift: true, control: false, alt: false }),
        _ => false,
    }
}

fn is_bare_enter(e: KeyEvent) -> (r: bool)
    ensures
        r == spec_is_submit(e),
{
    match e.code {
        KeyCode::Enter => e.modifiers == (KeyModifiers {
            shift: false,
            control: false,
            alt: false,
        }),
        _ => false,
    }
}

/// The current counter for pastes of `line_count` lines (zero when none was
/// recorded yet).
pub open spec fn spec_counter_for(cs: Seq<(usize, usize)>, line_count: usize) -> int
    decreases cs.len(),
{
    if cs.len() == 0 {
        0
    } else if cs[0].0 == line_count {
        cs[0].1 as int
    } else {
        spec_counter_for(cs.drop_first(), line_count)
    }
}

/// Updating the entry found at `i` (the first with this key) changes the
/// counter to the new value.
pub proof fn lemma_counter_for_update(cs: Seq<(usize, usize)>, i: int, key: usize, v: usize)
    requires
        0 <= i < cs.len(),
        cs[i].0 == key,
        forall|j: int| 0 <= j < i ==> (#[trigger] cs[j]).0 != key,
    ensures
        spec_counter_for(cs.update(i, (key, v)), key) == v,
    decreases i,
{
    if i == 0 {
        assert(cs.update(0, (key, v))[0] == (key, v));
    } else {
        assert(cs.update(i, (key, v))[0] == cs[0]);
        assert(cs.update(i, (key, v)).drop_first() =~= cs.drop_first().update(i - 1, (key, v)));
        assert(forall|j: int|
            0 <= j < i - 1 ==> (#[trigger] cs.drop_first()[j]).0 != key);
        lemma_counter_for_update(cs.drop_first(), i - 1, key, v);
    }
}

/// The entry found at `i` (the first with this key) is the counter value.
pub proof fn lemma_counter_for_found(cs: Seq<(usize, usize)>, i: int, key: usize)
    requires
        0 <= i < cs.len(),
        cs[i].0 == key,
        forall|j: int| 0 <= j < i ==> (#[trigger] cs[j]).0 != key,
    ensures
        spec_counter_for(cs, key) == cs[i].1,
    decreases i,
{
    if i > 0 {
        assert(forall|j: int|
            0 <= j < i - 1 ==> (#[trigger] cs.drop_first()[j]).0 != key);
        lemma_counter_for_found(cs.drop_first(), i - 1, key);
    }
}

/// With no entry for the key, the counter is zero.
pub proof fn lemma_counter_for_missing(cs: Seq<(usize, usize)>, key: usize)
    requires
        forall|j: int| 0 <= j < cs.len() ==> (#[trigger] cs[j]).0 != key,
    ensures
        spec_counter_for(cs, key) == 0,
    decreases cs.len(),
{
    if cs.len() > 0 {
        lemma_counter_for_missing(cs.drop_first(), key);
    }
}

/// Appending a fresh entry sets its counter.
pub proof fn lemma_counter_for_push_new(cs: Seq<(usize, usize)>, key: usize, v: usize)
    requires
        forall|j: int| 0 <= j < cs.len() ==> (#[trigger] cs[j]).0 != key,
    ensures
        spec_counter_for(cs.push((key, v)), key) == v,
    decreases cs.len(),
{
    if cs.len() == 0 {
        assert(cs.push((key, v))[0] == (key, v));
    } else {
        assert(cs.push((key, v))[0] == cs[0]);
        assert(cs.push((key, v)).drop_first() =~= cs.drop_first().push((key, v)));
        lemma_counter_for_push_new(cs.drop_first(), key, v);
    }
}

/// Law: a placeholder standing alone in the textarea expands back to exactly
/// the pasted content on submit. (This needs the placeholder to actually
/// occur only where it was inserted; text that happens to repeat the
/// placeholder's own characters would be expanded too.)
pub proof fn lemma_placeholder_expands_back(ph: Seq<char>, norm: Seq<char>)
    requires
        ph.len() > 0,
    ensures
        spec_expand_pastes(ph, seq![(ph, norm)]) == norm,
{
    let ps = seq![(ph, norm)];
    assert(ps.drop_first() =~= Seq::<(Seq<char>, Seq<char>)>::empty());
    assert(ph.take(ph.len() as int) =~= ph);
    assert(ph.skip(ph.len() as int) =~= Seq::<char>::empty());
    assert(spec_replace(Seq::<char>::empty(), ph, norm) == Seq::<char>::empty());
    assert(spec_replace(ph, ph, norm) =~= norm);
    assert(ps[0].0 == ph && ps[0].1 == norm);
    assert(spec_expand_pastes(norm, ps.drop_first()) == norm);
    assert(spec_expand_pastes(ph, ps) == spec_expand_pastes(
        spec_replace(ph, ps[0].0, ps[0].1),
        ps.drop_first(),
    ));
}

} // verus!

