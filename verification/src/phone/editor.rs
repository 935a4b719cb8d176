//! The line in which commands are typed, with its history and the search in it.
use super::commands::{command_of, law_speed_line, CommandView};
use super::history::{
    entries, find_reverse_history_match, is_news, push_history_entry, reverse_match, with_entry,
};
use crate::case::{ascii_lower, ascii_lower_char};
use crate::text::{chars_of, lemma_trimmed_id, lemma_trimmed_twice, string_of, trim, trimmed, words};
use vstd::prelude::*;

verus! {

/// A key of the keyboard.
#[derive(Debug, Clone, Copy, PartialEq, Eq, Structural)]
pub enum Key {
    Esc,
    Enter,
    Backspace,
    Up,
    Down,
    Char(char),
    Other,
}

/// A key that is pressed or released, with the control key held or not.
#[derive(Debug, Clone, Copy, PartialEq, Eq, Structural)]
pub struct KeyPress {
    pub key: Key,
    pub control: bool,
    pub released: bool,
}

/// Whether a key is the letter `ch` with the control key held, in either case,
/// or the control code that some terminals send for it.
pub open spec fn is_ctrl(k: KeyPress, ch: char, code: char) -> bool {
    match k.key {
        Key::Char(c) => (ascii_lower(c) == ascii_lower(ch) && k.control) || c == code,
        _ => false,
    }
}

/// Whether a key is the letter `ch` with the control key held, or its code.
pub fn is_ctrl_char(k: &KeyPress, ch: char, code: char) -> (r: bool)
    ensures
        r == is_ctrl(*k, ch, code),
{
    match k.key {
        Key::Char(c) => (ascii_lower_char(c) == ascii_lower_char(ch) && k.control) || c == code,
        _ => false,
    }
}

/// The digit that is pressed with the control key held, if that is what a key is.
pub open spec fn slot_key(k: KeyPress) -> Option<char> {
    match k.key {
        Key::Char(c) => if k.control && '0' <= c <= '9' {
            Some(c)
        } else {
            None
        },
        _ => None,
    }
}

/// Something that a key calls for.
#[derive(Debug, PartialEq, Eq)]
pub enum EditAction {
    /// Show the prompt and the line anew.
    Redraw(String),
    /// Show the search anew: what is looked for, and what was found.
    RedrawSearch { query: String, shown: String },
    /// Show a character at the end of the line.
    Echo(char),
    /// Go to a new line.
    NewLine,
    /// Show the prompt.
    Prompt,
    /// Write the history down.
    Save,
    /// Carry out a command.
    Submit(String),
    /// Read no more keys.
    Quit,
}

pub enum EditView {
    Redraw(Seq<char>),
    RedrawSearch { query: Seq<char>, shown: Seq<char> },
    Echo(char),
    NewLine,
    Prompt,
    Save,
    Submit(Seq<char>),
    Quit,
}

impl View for EditAction {
    type V = EditView;

    open spec fn view(&self) -> EditView {
        match *self {
            EditAction::Redraw(s) => EditView::Redraw(s@),
            EditAction::RedrawSearch { query, shown } => EditView::RedrawSearch {
                query: query@,
                shown: shown@,
            },
            EditAction::Echo(c) => EditView::Echo(c),
            EditAction::NewLine => EditView::NewLine,
            EditAction::Prompt => EditView::Prompt,
            EditAction::Save => EditView::Save,
            EditAction::Submit(s) => EditView::Submit(s@),
            EditAction::Quit => EditView::Quit,
        }
    }
}

/// The actions, as values.
pub open spec fn edits(v: Seq<EditAction>) -> Seq<EditView> {
    Seq::new(v.len(), |i: int| v[i]@)
}

struct Search {
    query: Vec<char>,
    found: Option<usize>,
    original: Vec<char>,
}

/// A line that is being edited.
pub struct LineEditor {
    history: Vec<String>,
    max_history: usize,
    position: Option<usize>,
    line: Vec<char>,
    search: Option<Search>,
}

pub struct SearchView {
    /// What is looked for.
    pub query: Seq<char>,
    /// The entry that was found.
    pub found: Option<usize>,
    /// The line as it was when the search began.
    pub original: Seq<char>,
}

pub struct EditorView {
    pub history: Seq<Seq<char>>,
    pub max_history: nat,
    /// The entry that is shown.
    pub position: Option<usize>,
    pub line: Seq<char>,
    pub search: Option<SearchView>,
}

impl View for LineEditor {
    type V = EditorView;

    closed spec fn view(&self) -> EditorView {
        EditorView {
            history: entries(self.history@),
            max_history: self.max_history as nat,
            position: self.position,
            line: self.line@,
            search: match self.search {
                Some(s) => Some(
                    SearchView { query: s.query@, found: s.found, original: s.original@ },
                ),
                None => None,
            },
        }
    }
}

impl EditorView {
    /// What holds of every line: the entry that is shown is one of the history,
    /// and so is the one that a search has found.
    pub open spec fn wf(self) -> bool {
        &&& self.history.len() <= usize::MAX
        &&& self.position is Some ==> self.position->0 < self.history.len()
        &&& self.search is Some && self.search->0.found is Some ==> self.search->0.found->0
            < self.history.len()
    }

    /// The line with other contents, outside a search.
    pub open spec fn showing(self, line: Seq<char>) -> EditorView {
        EditorView { line, search: None, ..self }
    }

    /// The search for `query`, before the entry `before` where that is given.
    pub open spec fn looking(self, query: Seq<char>, before: Option<usize>, original: Seq<char>) -> (
        EditorView,
        Seq<EditView>,
    ) {
        let found = reverse_match(self.history, query, before);
        (
            EditorView { search: Some(SearchView { query, found, original }), ..self },
            seq![
                EditView::RedrawSearch {
                    query,
                    shown: match found {
                        Some(i) => self.history[i as int],
                        None => seq![],
                    },
                },
            ],
        )
    }
}

/// What a key does during a search: Escape and Ctrl-G leave it with the line as
/// it was, Enter takes over what was found, Ctrl-R looks further back, and other
/// keys change what is looked for.
pub open spec fn search_key(e: EditorView, s: SearchView, k: KeyPress) -> (
    EditorView,
    Seq<EditView>,
) {
    if k.key == Key::Esc || is_ctrl(k, 'g', '\u{7}') {
        (e.showing(s.original), seq![EditView::Redraw(s.original)])
    } else if k.key == Key::Enter {
        let line = match s.found {
            Some(i) => e.history[i as int],
            None => s.original,
        };
        (
            EditorView { position: s.found, ..e.showing(line) },
            seq![EditView::Redraw(line)],
        )
    } else if k.key == Key::Backspace {
        e.looking(
            if s.query.len() > 0 {
                s.query.drop_last()
            } else {
                s.query
            },
            None,
            s.original,
        )
    } else if is_ctrl(k, 'r', '\u{12}') {
        e.looking(s.query, s.found, s.original)
    } else {
        match k.key {
            Key::Char(c) => e.looking(s.query.push(c), None, s.original),
            _ => (e, seq![]),
        }
    }
}

/// What Enter does: the line is a command, which goes into the history.
pub open spec fn enter_key(e: EditorView) -> (EditorView, Seq<EditView>) {
    let command = trimmed(e.line);
    (
        EditorView {
            history: with_entry(e.history, command, e.max_history),
            position: None,
            line: seq![],
            ..e
        },
        seq![EditView::NewLine] + (if command.len() > 0 {
            (if is_news(e.history, command) {
                seq![EditView::Save]
            } else {
                seq![]
            }) + seq![EditView::Submit(command)]
        } else {
            seq![]
        }) + seq![EditView::Prompt],
    )
}

/// What the arrows do: they show the entries of the history, older ones with
/// Up and later ones with Down, and behind the latest an empty line.
pub open spec fn arrow_key(e: EditorView, up: bool) -> (EditorView, Seq<EditView>) {
    if e.history.len() == 0 {
        (e, seq![])
    } else {
        let position: Option<usize> = if up {
            match e.position {
                None => Some((e.history.len() - 1) as usize),
                Some(p) => if p > 0 {
                    Some((p - 1) as usize)
                } else {
                    Some(0)
                },
            }
        } else {
            match e.position {
                Some(p) => if p + 1 < e.history.len() {
                    Some((p + 1) as usize)
                } else {
                    None
                },
                None => None,
            }
        };
        let line = match position {
            Some(p) => e.history[p as int],
            None => seq![],
        };
        (EditorView { position, line, ..e }, seq![EditView::Redraw(line)])
    }
}

/// What a key does outside a search.
pub open spec fn edit_key(e: EditorView, k: KeyPress) -> (EditorView, Seq<EditView>) {
    if is_ctrl(k, 'c', '\u{3}') {
        (e, seq![EditView::Submit("hangup"@), EditView::Quit])
    } else if is_ctrl(k, 'r', '\u{12}') {
        e.looking(seq![], None, e.line)
    } else if slot_key(k) is Some {
        (e, seq![EditView::Submit("speed "@.push(slot_key(k)->0))])
    } else {
        match k.key {
            Key::Enter => enter_key(e),
            Key::Backspace => if e.line.len() > 0 {
                (
                    EditorView { line: e.line.drop_last(), ..e },
                    seq![EditView::Redraw(e.line.drop_last())],
                )
            } else {
                (e, seq![])
            },
            Key::Up => arrow_key(e, true),
            Key::Down => arrow_key(e, false),
            Key::Char(c) => (
                EditorView { line: e.line.push(c), ..e },
                seq![EditView::Echo(c)],
            ),
            _ => (e, seq![]),
        }
    }
}

/// What a key does. A key that is released does nothing.
pub open spec fn on_key(e: EditorView, k: KeyPress) -> (EditorView, Seq<EditView>) {
    if k.released {
        (e, seq![])
    } else {
        match e.search {
            Some(s) => search_key(e, s, k),
            None => edit_key(e, k),
        }
    }
}

fn put(out: &mut Vec<EditAction>, a: EditAction)
    ensures
        edits(final(out)@) == edits(old(out)@).push(a@),
{
    out.push(a);
    assert(edits(out@) =~= edits(old(out)@).push(a@));
}

fn one(a: EditAction) -> (r: Vec<EditAction>)
    ensures
        edits(r@) == seq![a@],
{
    let mut out: Vec<EditAction> = Vec::new();
    out.push(a);
    assert(edits(out@) =~= seq![a@]);
    out
}

fn none() -> (r: Vec<EditAction>)
    ensures
        edits(r@) == Seq::<EditView>::empty(),
{
    let out: Vec<EditAction> = Vec::new();
    assert(edits(out@) =~= Seq::<EditView>::empty());
    out
}

fn copy_chars(v: &Vec<char>) -> (r: Vec<char>)
    ensures
        r@ == v@,
{
    vstd::slice::slice_to_vec(v.as_slice())
}

impl LineEditor {
    /// A line that is empty, with a history.
    pub fn new(history: Vec<String>, max_history: usize) -> (r: Self)
        ensures
            r@.wf(),
            r@ == (EditorView {
                history: entries(history@),
                max_history: max_history as nat,
                position: None,
                line: seq![],
                search: None,
            }),
    {
        let _count: usize = history.len();
        let r = LineEditor { history, max_history, position: None, line: Vec::new(), search: None };
        assert(r@.line =~= seq![]);
        r
    }

    /// The entries of the history.
    pub fn history(&self) -> (r: &[String])
        ensures
            entries(r@) == self@.history,
    {
        self.history.as_slice()
    }

    fn look(&mut self, query: Vec<char>, before: Option<usize>, original: Vec<char>) -> (r: Vec<
        EditAction,
    >)
        requires
            old(self)@.wf(),
            before is Some ==> before->0 < old(self)@.history.len(),
        ensures
            final(self)@.wf(),
            (final(self)@, edits(r@)) == old(self)@.looking(query@, before, original@),
    {
        let text = string_of(query.as_slice());
        let found = find_reverse_history_match(self.history.as_slice(), text.as_str(), before);
        let shown = match found {
            Some(i) => {
                assert(self@.history[i as int] == self.history@[i as int]@);
                self.history[i].clone()
            },
            None => String::new(),
        };
        assert(found is None ==> shown@ =~= seq![]);
        self.search = Some(Search { query, found, original });
        one(EditAction::RedrawSearch { query: text, shown })
    }

    fn leave_search(&mut self, s: Search) -> (r: Vec<EditAction>)
        requires
            old(self)@.wf(),
        ensures
            final(self)@.wf(),
            final(self)@ == old(self)@.showing(s.original@),
            edits(r@) == seq![EditView::Redraw(s.original@)],
    {
        self.search = None;
        let shown = string_of(s.original.as_slice());
        self.line = s.original;
        one(EditAction::Redraw(shown))
    }

    fn take_found(&mut self, s: Search) -> (r: Vec<EditAction>)
        requires
            old(self)@.wf(),
            s.found is Some ==> s.found->0 < old(self)@.history.len(),
        ensures
            final(self)@.wf(),
            ({
                let line = match s.found {
                    Some(i) => old(self)@.history[i as int],
                    None => s.original@,
                };
                &&& final(self)@ == (EditorView {
                    position: s.found,
                    ..old(self)@.showing(line)
                })
                &&& edits(r@) == seq![EditView::Redraw(line)]
            }),
    {
        self.search = None;
        self.position = s.found;
        let shown = match s.found {
            Some(i) => {
                assert(self@.history[i as int] == self.history@[i as int]@);
                self.history[i].clone()
            },
            None => string_of(s.original.as_slice()),
        };
        self.line = chars_of(shown.as_str());
        one(EditAction::Redraw(shown))
    }

    fn on_search_key(&mut self, s: Search, k: &KeyPress) -> (r: Vec<EditAction>)
        requires
            old(self)@.wf(),
            old(self)@.search is None,
            s.found is Some ==> s.found->0 < old(self)@.history.len(),
        ensures
            final(self)@.wf(),
            ({
                let v = SearchView { query: s.query@, found: s.found, original: s.original@ };
                (final(self)@, edits(r@)) == search_key(
                    EditorView { search: Some(v), ..old(self)@ },
                    v,
                    *k,
                )
            }),
    {
        if k.key == Key::Esc || is_ctrl_char(k, 'g', '\u{7}') {
            return self.leave_search(s);
        }
        if k.key == Key::Enter {
            return self.take_found(s);
        }
        if k.key == Key::Backspace {
            let mut query = s.query;
            let _gone = query.pop();
            return self.look(query, None, s.original);
        }
        if is_ctrl_char(k, 'r', '\u{12}') {
            return self.look(s.query, s.found, s.original);
        }
        match k.key {
            Key::Char(c) => {
                let mut query = s.query;
                query.push(c);
                self.look(query, None, s.original)
            },
            _ => {
                self.search = Some(s);
                none()
            },
        }
    }

    fn enter(&mut self) -> (r: Vec<EditAction>)
        requires
            old(self)@.wf(),
            old(self)@.search is None,
        ensures
            final(self)@.wf(),
            (final(self)@, edits(r@)) == enter_key(old(self)@),
    {
        let mut out = one(EditAction::NewLine);
        let command = string_of(trim(self.line.as_slice()));
        let cs = chars_of(command.as_str());
        if cs.len() > 0 {
            if push_history_entry(&mut self.history, command.as_str(), self.max_history) {
                put(&mut out, EditAction::Save);
            }
            put(&mut out, EditAction::Submit(command));
        } else {
            assert(!is_news(old(self)@.history, cs@)) by {
                lemma_trimmed_id(cs@);
            }
        }
        self.line = Vec::new();
        self.position = None;
        put(&mut out, EditAction::Prompt);
        assert(self@.line =~= seq![]);
        assert(edits(out@) =~= enter_key(old(self)@).1);
        let _count: usize = self.history.len();
        out
    }

    fn show_entry(&mut self, position: Option<usize>) -> (r: Vec<EditAction>)
        requires
            old(self)@.wf(),
            position is Some ==> position->0 < old(self)@.history.len(),
        ensures
            final(self)@.wf(),
            ({
                let line = match position {
                    Some(p) => old(self)@.history[p as int],
                    None => seq![],
                };
                &&& final(self)@ == (EditorView { position, line, ..old(self)@ })
                &&& edits(r@) == seq![EditView::Redraw(line)]
            }),
    {
        let shown = match position {
            Some(p) => {
                assert(self@.history[p as int] == self.history@[p as int]@);
                self.history[p].clone()
            },
            None => String::new(),
        };
        assert(position is None ==> shown@ =~= seq![]);
        self.position = position;
        self.line = chars_of(shown.as_str());
        one(EditAction::Redraw(shown))
    }

    fn arrow(&mut self, up: bool) -> (r: Vec<EditAction>)
        requires
            old(self)@.wf(),
        ensures
            final(self)@.wf(),
            (final(self)@, edits(r@)) == arrow_key(old(self)@, up),
    {
        let n: usize = self.history.len();
        if n == 0 {
            return none();
        }
        let position = if up {
            match self.position {
                None => Some(n - 1),
                Some(p) => if p > 0 {
                    Some(p - 1)
                } else {
                    Some(0)
                },
            }
        } else {
            match self.position {
                Some(p) => if p < n - 1 {
                    Some(p + 1)
                } else {
                    None
                },
                None => None,
            }
        };
        self.show_entry(position)
    }

    fn on_edit_key(&mut self, k: &KeyPress) -> (r: Vec<EditAction>)
        requires
            old(self)@.wf(),
            old(self)@.search is None,
        ensures
            final(self)@.wf(),
            (final(self)@, edits(r@)) == edit_key(old(self)@, *k),
    {
        if is_ctrl_char(k, 'c', '\u{3}') {
            let mut out = one(EditAction::Submit("hangup".to_owned()));
            put(&mut out, EditAction::Quit);
            assert(edits(out@) =~= seq![EditView::Submit("hangup"@), EditView::Quit]);
            return out;
        }
        if is_ctrl_char(k, 'r', '\u{12}') {
            let original = copy_chars(&self.line);
            let query: Vec<char> = Vec::new();
            assert(query@ =~= seq![]);
            return self.look(query, None, original);
        }
        match k.key {
            Key::Enter => self.enter(),
            Key::Backspace => if self.line.len() > 0 {
                let _gone = self.line.pop();
                one(EditAction::Redraw(string_of(self.line.as_slice())))
            } else {
                none()
            },
            Key::Up => self.arrow(true),
            Key::Down => self.arrow(false),
            Key::Char(c) => if k.control && '0' <= c && c <= '9' {
                let mut s = "speed ".to_owned();
                s.push(c);
                one(EditAction::Submit(s))
            } else {
                self.line.push(c);
                one(EditAction::Echo(c))
            },
            _ => none(),
        }
    }

    /// Takes in a key.
    pub fn on_key(&mut self, k: &KeyPress) -> (r: Vec<EditAction>)
        requires
            old(self)@.wf(),
        ensures
            final(self)@.wf(),
            (final(self)@, edits(r@)) == on_key(old(self)@, *k),
    {
        if k.released {
            return none();
        }
        match self.search.take() {
            Some(s) => self.on_search_key(s, k),
            None => self.on_edit_key(k),
        }
    }
}

/// A search that is left gives back the line as it was when it began.
pub proof fn law_search_left(e: EditorView, begin: KeyPress, leave: KeyPress)
    requires
        e.search is None,
        !begin.released && !leave.released,
        is_ctrl(begin, 'r', '\u{12}'),
        !is_ctrl(begin, 'c', '\u{3}'),
        leave.key == Key::Esc || is_ctrl(leave, 'g', '\u{7}'),
    ensures
        on_key(on_key(e, begin).0, leave).0 == e,
{
}

/// A character that is typed and taken back leaves the line as it was.
pub proof fn law_typed_and_taken_back(e: EditorView, c: char)
    requires
        e.search is None,
        c != '\u{3}' && c != '\u{12}',
    ensures
        ({
            let typed = KeyPress { key: Key::Char(c), control: false, released: false };
            let back = KeyPress { key: Key::Backspace, control: false, released: false };
            on_key(on_key(e, typed).0, back).0 == e
        }),
{
    assert(e.line.push(c).drop_last() =~= e.line);
}

/// What Enter submits is what Up shows next, where the history has room.
pub proof fn law_up_shows_last_command(e: EditorView)
    requires
        e.wf(),
        e.search is None,
        e.max_history > 0,
        trimmed(e.line).len() > 0,
    ensures
        ({
            let enter = KeyPress { key: Key::Enter, control: false, released: false };
            let up = KeyPress { key: Key::Up, control: false, released: false };
            on_key(on_key(e, enter).0, up).0.line == trimmed(e.line)
        }),
{
    let command = trimmed(e.line);
    lemma_trimmed_twice(e.line);
    let h = with_entry(e.history, command, e.max_history);
    assert(h.len() > 0);
    assert(h.last() == command);
}

/// A digit with the control key held submits the line that dials its slot, and
/// leaves the line that is typed as it is.
pub proof fn law_shortcut_dials(e: EditorView, digit: char)
    requires
        e.search is None,
        '0' <= digit <= '9',
    ensures
        ({
            let press = KeyPress { key: Key::Char(digit), control: true, released: false };
            let line = "speed "@.push(digit);
            &&& on_key(e, press) == (e, seq![EditView::Submit(line)])
            &&& command_of(words(line)) == Some(CommandView::Speed(Some(seq![digit])))
        }),
{
    law_speed_line(digit);
}

} // verus!
