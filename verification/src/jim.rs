use vstd::prelude::*;

use crate::builtin_maps::{action_cursor, action_quitting, action_saves, apply_action};
use crate::cursor::Cursor;
use crate::file::JimFile;
use crate::key::Key;
use crate::mapping::{try_use_post, Command, Mapping};
use crate::mode::Mode;
use crate::text::{find_char_from, lemma_line_len_at, lemma_no_nl_before, line_at};

verus! {

/// How many recent key presses the rolling Normal-mode history retains.
pub const KEY_HISTORY_LIMIT: usize = 32;

/// The mutable editor state every action operates on: the open buffer, the
/// cursor into it, the mode, the rolling key history, the command line being
/// typed, the armed-mapping lock, and the two outward-facing flags (a quit
/// request and a count of save requests for the storage collaborator to
/// honour).
#[derive(Debug)]
pub struct JimProperties {
    pub file: JimFile,
    pub mode: Mode,
    pub cursor: Cursor,
    pub quitting: bool,
    pub buttons_pressed: Vec<Key>,
    pub command_line: Vec<char>,
    pub cant_press_maps: bool,
    pub save_requests: usize,
}

/// Whether `btns` occurs as a contiguous window anywhere inside `hist` —
/// anywhere, not only at its end: an identical subsequence left over from
/// older keystrokes matches too, which is the literal matching contract.
pub open spec fn contains_window(hist: Seq<Key>, btns: Seq<Key>) -> bool {
    exists|i: int|
        0 <= i && i + btns.len() <= hist.len() && #[trigger] hist.subrange(i, i + btns.len())
            == btns
}

/// Equality of all fields but the key history.
pub open spec fn frame_non_buttons(p0: JimProperties, p1: JimProperties) -> bool {
    &&& p1.file == p0.file
    &&& p1.mode == p0.mode
    &&& p1.cursor == p0.cursor
    &&& p1.quitting == p0.quitting
    &&& p1.command_line == p0.command_line
    &&& p1.cant_press_maps == p0.cant_press_maps
    &&& p1.save_requests == p0.save_requests
}

/// Equality of all fields but the cursor.
pub open spec fn frame_non_cursor(p0: JimProperties, p1: JimProperties) -> bool {
    &&& p1.file == p0.file
    &&& p1.mode == p0.mode
    &&& p1.quitting == p0.quitting
    &&& p1.buttons_pressed == p0.buttons_pressed
    &&& p1.command_line == p0.command_line
    &&& p1.cant_press_maps == p0.cant_press_maps
    &&& p1.save_requests == p0.save_requests
}

/// Whether the two key-sequence vectors hold the same window of keys.
fn keys_eq_at(hist: &Vec<Key>, btns: &Vec<Key>, at: usize) -> (r: bool)
    requires
        at + btns@.len() <= hist@.len(),
    ensures
        r == (hist@.subrange(at as int, at + btns@.len()) == btns@),
{
    let total = hist.len();
    let n = btns.len();
    let mut j: usize = 0;
    while j < n
        invariant
            j <= n,
            n == btns@.len(),
            at + n <= hist@.len(),
            hist@.len() <= total,
            forall|k: int| 0 <= k < j ==> hist@[at + k] == btns@[k],
        decreases n - j,
    {
        if hist[at + j] != btns[j] {
            proof {
                assert(hist@.subrange(at as int, at + n)[j as int] != btns@[j as int]);
            }
            return false;
        }
        j = j + 1;
    }
    proof {
        assert(hist@.subrange(at as int, at + n) =~= btns@);
    }
    true
}

/// Scans `hist` for `btns` as a contiguous window, anywhere within it.
fn window_search(hist: &Vec<Key>, btns: &Vec<Key>) -> (r: bool)
    ensures
        r == contains_window(hist@, btns@),
{
    let ghost h = hist@;
    let ghost b = btns@;
    if btns.len() > hist.len() {
        proof {
            assert forall|k: int| 0 <= k && k + b.len() <= h.len() implies #[trigger] h.subrange(
                k,
                k + b.len(),
            ) != b by {}
        }
        return false;
    }
    let last_start = hist.len() - btns.len();
    let mut i: usize = 0;
    loop
        invariant
            h == hist@,
            b == btns@,
            b.len() <= h.len(),
            last_start == h.len() - b.len(),
            i <= last_start,
            forall|k: int| 0 <= k < i ==> #[trigger] h.subrange(k, k + b.len()) != b,
        decreases last_start - i,
    {
        if keys_eq_at(hist, btns, i) {
            proof {
                assert(contains_window(h, b));
            }
            return true;
        }
        if i == last_start {
            proof {
                assert forall|k: int| 0 <= k && k + b.len() <= h.len() implies #[trigger] h.subrange(
                    k,
                    k + b.len(),
                ) != b by {}
            }
            return false;
        }
        i = i + 1;
    }
}

/// Whether the two character vectors hold the same characters.
fn chars_eq(a: &Vec<char>, b: &Vec<char>) -> (r: bool)
    ensures
        r == (a@ == b@),
{
    if a.len() != b.len() {
        return false;
    }
    let n = a.len();
    let mut j: usize = 0;
    while j < n
        invariant
            j <= n,
            n == a@.len(),
            n == b@.len(),
            forall|k: int| 0 <= k < j ==> a@[k] == b@[k],
        decreases n - j,
    {
        if a[j] != b[j] {
            return false;
        }
        j = j + 1;
    }
    proof {
        assert(a@ =~= b@);
    }
    true
}

impl JimProperties {
    /// Consistency of the whole state: the cursor agrees with the buffer.
    pub open spec fn wf(self) -> bool {
        self.cursor.wf(self.file.contents@)
    }

    /// Tests whether `buttons` occurs as a contiguous window anywhere in the
    /// key history — the sliding-window matching contract, retained
    /// verbatim, quirk included — and clears the history on a match.
    pub fn use_mapping(&mut self, buttons: &Vec<Key>) -> (r: bool)
        ensures
            r == contains_window(old(self).buttons_pressed@, buttons@),
            r ==> final(self).buttons_pressed@ == Seq::<Key>::empty(),
            !r ==> final(self).buttons_pressed == old(self).buttons_pressed,
            frame_non_buttons(*old(self), *final(self)),
    {
        let contains = window_search(&self.buttons_pressed, buttons);
        if contains {
            self.buttons_pressed.clear();
        }
        contains
    }

    /// The characters of the cursor's current line.
    pub fn current_line(&self) -> (r: Vec<char>)
        requires
            self.wf(),
        ensures
            r@ == line_at(self.file.contents@, self.cursor.xy_pos.y as nat),
    {
        let ghost s = self.file.contents@;
        proof {
            lemma_no_nl_before(s, self.cursor.index as int);
            lemma_line_len_at(s, self.cursor.index as int);
        }
        let start = self.cursor.index - self.cursor.xy_pos.x;
        let e = find_char_from(&self.file.contents, self.cursor.index, '\n');
        let mut out: Vec<char> = Vec::new();
        proof {
            assert(out@ =~= s.subrange(start as int, start as int));
        }
        let mut j = start;
        while j < e
            invariant
                s == self.file.contents@,
                start <= j <= e,
                e <= s.len(),
                out@ == s.subrange(start as int, j as int),
            decreases e - j,
        {
            out.push(self.file.contents[j]);
            proof {
                assert(out@ =~= s.subrange(start as int, j + 1));
            }
            j = j + 1;
        }
        proof {
            assert(s.subrange(start as int, e as int) =~= line_at(s, self.cursor.xy_pos.y as nat));
        }
        out
    }

    /// Moves the cursor down `amount` lines, one clamped step at a time.
    pub fn move_cursor_down(&mut self, amount: usize)
        requires
            old(self).wf(),
        ensures
            final(self).cursor == old(self).cursor.move_down_n_spec(
                old(self).file.contents@,
                amount as nat,
            ),
            frame_non_cursor(*old(self), *final(self)),
            final(self).wf(),
    {
        let mut i: usize = 0;
        while i < amount
            invariant
                i <= amount,
                self.cursor == old(self).cursor.move_down_n_spec(
                    old(self).file.contents@,
                    i as nat,
                ),
                frame_non_cursor(*old(self), *self),
                self.wf(),
            decreases amount - i,
        {
            self.cursor.move_down(&self.file);
            i = i + 1;
        }
    }

    /// Moves the cursor up `amount` lines, one clamped step at a time.
    pub fn move_cursor_up(&mut self, amount: usize)
        requires
            old(self).wf(),
        ensures
            final(self).cursor == old(self).cursor.move_up_n_spec(
                old(self).file.contents@,
                amount as nat,
            ),
            frame_non_cursor(*old(self), *final(self)),
            final(self).wf(),
    {
        let mut i: usize = 0;
        while i < amount
            invariant
                i <= amount,
                self.cursor == old(self).cursor.move_up_n_spec(old(self).file.contents@, i as nat),
                frame_non_cursor(*old(self), *self),
                self.wf(),
            decreases amount - i,
        {
            self.cursor.move_up(&self.file);
            i = i + 1;
        }
    }

    /// Moves the cursor right `amount` columns, stopping at the line's last
    /// column.
    pub fn move_cursor_right(&mut self, amount: usize)
        requires
            old(self).wf(),
        ensures
            final(self).cursor == old(self).cursor.move_right_n_spec(
                old(self).file.contents@,
                amount as nat,
            ),
            frame_non_cursor(*old(self), *final(self)),
            final(self).wf(),
    {
        let mut i: usize = 0;
        while i < amount
            invariant
                i <= amount,
                self.cursor == old(self).cursor.move_right_n_spec(
                    old(self).file.contents@,
                    i as nat,
                ),
                frame_non_cursor(*old(self), *self),
                self.wf(),
            decreases amount - i,
        {
            self.cursor.move_right(&self.file);
            i = i + 1;
        }
    }

    /// Moves the cursor left `amount` columns, stopping at column zero.
    pub fn move_cursor_left(&mut self, amount: usize)
        requires
            old(self).wf(),
        ensures
            final(self).cursor == old(self).cursor.move_left_n_spec(amount as nat),
            frame_non_cursor(*old(self), *final(self)),
            final(self).wf(),
    {
        let mut i: usize = 0;
        while i < amount
            invariant
                i <= amount,
                self.cursor == old(self).cursor.move_left_n_spec(i as nat),
                frame_non_cursor(*old(self), *self),
                self.wf(),
            decreases amount - i,
        {
            self.cursor.move_left(&self.file);
            i = i + 1;
        }
    }

    /// Moves the cursor right `amount` columns, permitted to reach the
    /// append position one past the line's last character.
    pub fn force_move_cursor_right(&mut self, amount: usize)
        requires
            old(self).wf(),
        ensures
            final(self).cursor == old(self).cursor.force_move_right_n_spec(
                old(self).file.contents@,
                amount as nat,
            ),
            frame_non_cursor(*old(self), *final(self)),
            final(self).wf(),
    {
        let mut i: usize = 0;
        while i < amount
            invariant
                i <= amount,
                self.cursor == old(self).cursor.force_move_right_n_spec(
                    old(self).file.contents@,
                    i as nat,
                ),
                frame_non_cursor(*old(self), *self),
                self.wf(),
            decreases amount - i,
        {
            self.cursor.force_move_right(&self.file);
            i = i + 1;
        }
    }

    /// Moves the cursor to the end of the current line.
    pub fn move_cursor_full_right(&mut self)
        requires
            old(self).wf(),
        ensures
            final(self).cursor == old(self).cursor.move_full_right_spec(old(self).file.contents@),
            frame_non_cursor(*old(self), *final(self)),
            final(self).wf(),
    {
        self.cursor.move_full_right(&self.file);
    }
}

/// What evaluating the whole mapping table, in registration order, does: the
/// chain of `try_use_post` steps from `p0` through each mapping to `p1`.
pub open spec fn run_maps_rel(
    maps0: Seq<Mapping>,
    p0: JimProperties,
    maps1: Seq<Mapping>,
    p1: JimProperties,
) -> bool
    decreases maps0.len(),
{
    &&& maps1.len() == maps0.len()
    &&& if maps0.len() == 0 {
        p1 == p0
    } else {
        exists|pmid: JimProperties|
            #[trigger] try_use_post(maps0[0], p0, maps1[0], pmid) && run_maps_rel(
                maps0.skip(1),
                pmid,
                maps1.skip(1),
                p1,
            )
    }
}

/// A chain through `a0` followed by one more step is a chain through
/// `a0` with that mapping appended.
proof fn lemma_run_maps_snoc(
    a0: Seq<Mapping>,
    p0: JimProperties,
    a1: Seq<Mapping>,
    p1: JimProperties,
    m0: Mapping,
    m1: Mapping,
    p2: JimProperties,
)
    requires
        run_maps_rel(a0, p0, a1, p1),
        try_use_post(m0, p1, m1, p2),
    ensures
        run_maps_rel(a0.push(m0), p0, a1.push(m1), p2),
    decreases a0.len(),
{
    if a0.len() == 0 {
        assert(a0.push(m0)[0] == m0);
        assert(a1.push(m1)[0] == m1);
        assert(a0.push(m0).skip(1) =~= Seq::<Mapping>::empty());
        assert(a1.push(m1).skip(1) =~= Seq::<Mapping>::empty());
        assert(run_maps_rel(a0.push(m0).skip(1), p2, a1.push(m1).skip(1), p2));
        assert(try_use_post(a0.push(m0)[0], p0, a1.push(m1)[0], p2));
    } else {
        assert(a0.push(m0).skip(1) =~= a0.skip(1).push(m0));
        assert(a1.push(m1).skip(1) =~= a1.skip(1).push(m1));
        let pmid = choose|pmid: JimProperties|
            #[trigger] try_use_post(a0[0], p0, a1[0], pmid) && run_maps_rel(
                a0.skip(1),
                pmid,
                a1.skip(1),
                p1,
            );
        lemma_run_maps_snoc(a0.skip(1), pmid, a1.skip(1), p1, m0, m1, p2);
        assert(a0.push(m0)[0] == a0[0]);
        assert(a1.push(m1)[0] == a1[0]);
        assert(try_use_post(a0.push(m0)[0], p0, a1.push(m1)[0], pmid) && run_maps_rel(
            a0.push(m0).skip(1),
            pmid,
            a1.push(m1).skip(1),
            p2,
        ));
    }
}

/// The key history after a press: the key is appended, the oldest entry
/// falling out once the rolling history is full.
pub open spec fn pushed_history(h: Seq<Key>, k: Key) -> Seq<Key> {
    if h.len() >= KEY_HISTORY_LIMIT {
        h.skip(1).push(k)
    } else {
        h.push(k)
    }
}

/// The first command whose name equals the typed line verbatim, if any.
pub open spec fn find_command(cmds: Seq<Command>, line: Seq<char>) -> Option<int>
    decreases cmds.len(),
{
    if cmds.len() == 0 {
        None
    } else if cmds[0].name@ == line {
        Some(0)
    } else {
        match find_command(cmds.skip(1), line) {
            Some(i) => Some(i + 1),
            None => None,
        }
    }
}

proof fn lemma_find_command_prefix(cmds: Seq<Command>, line: Seq<char>, i: int)
    requires
        0 <= i <= cmds.len(),
        forall|k: int| 0 <= k < i ==> cmds[k].name@ != line,
    ensures
        i < cmds.len() && cmds[i].name@ == line ==> find_command(cmds, line) == Some(i),
        i == cmds.len() ==> find_command(cmds, line) == None::<int>,
    decreases cmds.len(),
{
    if cmds.len() > 0 && i > 0 {
        assert(cmds[0].name@ != line);
        assert forall|k: int| 0 <= k < i - 1 implies cmds.skip(1)[k].name@ != line by {
            assert(cmds.skip(1)[k] == cmds[k + 1]);
        }
        lemma_find_command_prefix(cmds.skip(1), line, i - 1);
        if i < cmds.len() {
            assert(cmds.skip(1)[i - 1] == cmds[i]);
        }
    }
}

/// What a key press in Insert mode does: a printable character or Enter is
/// written at the cursor, Backspace deletes before it, and escape returns to
/// Normal mode with one step left, so the cursor lands on, not after, the
/// last inserted character.
pub open spec fn insert_key_post(p0: JimProperties, p1: JimProperties, key: Key) -> bool {
    &&& p1.buttons_pressed == p0.buttons_pressed
    &&& p1.command_line == p0.command_line
    &&& p1.cant_press_maps == p0.cant_press_maps
    &&& p1.quitting == p0.quitting
    &&& p1.save_requests == p0.save_requests
    &&& p1.file.path == p0.file.path
    &&& match key {
        Key::Esc => {
            &&& p1.mode == Mode::Normal
            &&& p1.cursor == p0.cursor.move_left_spec()
            &&& p1.file == p0.file
        },
        Key::Char(c) => {
            &&& p1.mode == p0.mode
            &&& p1.cursor == p0.cursor.write_char_spec(c)
            &&& p1.file.contents@ == p0.file.contents@.insert(p0.cursor.index as int, c)
        },
        Key::Enter => {
            &&& p1.mode == p0.mode
            &&& p1.cursor == p0.cursor.write_char_spec('\n')
            &&& p1.file.contents@ == p0.file.contents@.insert(p0.cursor.index as int, '\n')
        },
        Key::Backspace => {
            &&& p1.mode == p0.mode
            &&& p1.cursor == p0.cursor.backspace_spec(p0.file.contents@)
            &&& p1.file.contents@ == (if p0.cursor.index > 0 {
                p0.file.contents@.remove(p0.cursor.index - 1)
            } else {
                p0.file.contents@
            })
        },
        _ => p1 == p0,
    }
}

/// What a key press in Command mode does: characters accumulate on the
/// command line, Backspace shortens it, Enter executes the first command
/// bound to the typed line (an unbound line is silently ignored) and
/// returns to Normal mode with the line cleared, and escape discards the
/// line.
pub open spec fn command_key_post(
    p0: JimProperties,
    p1: JimProperties,
    key: Key,
    cmds: Seq<Command>,
) -> bool {
    &&& p1.buttons_pressed == p0.buttons_pressed
    &&& p1.cant_press_maps == p0.cant_press_maps
    &&& p1.file == p0.file
    &&& match key {
        Key::Char(c) => {
            &&& p1.mode == p0.mode
            &&& p1.command_line@ == p0.command_line@.push(c)
            &&& p1.cursor == p0.cursor
            &&& p1.quitting == p0.quitting
            &&& p1.save_requests == p0.save_requests
        },
        Key::Backspace => {
            &&& p1.mode == p0.mode
            &&& p1.command_line@ == (if p0.command_line@.len() > 0 {
                p0.command_line@.drop_last()
            } else {
                p0.command_line@
            })
            &&& p1.cursor == p0.cursor
            &&& p1.quitting == p0.quitting
            &&& p1.save_requests == p0.save_requests
        },
        Key::Esc => {
            &&& p1.mode == Mode::Normal
            &&& p1.command_line@ == Seq::<char>::empty()
            &&& p1.cursor == p0.cursor
            &&& p1.quitting == p0.quitting
            &&& p1.save_requests == p0.save_requests
        },
        Key::Enter => {
            &&& p1.mode == Mode::Normal
            &&& p1.command_line@ == Seq::<char>::empty()
            &&& match find_command(cmds, p0.command_line@) {
                Some(i) => {
                    &&& p1.cursor == action_cursor(
                        cmds[i].action,
                        p0.cursor,
                        p0.file.contents@,
                        p0.buttons_pressed@,
                    )
                    &&& p1.quitting == action_quitting(cmds[i].action, p0.quitting)
                    &&& p1.save_requests == action_saves(cmds[i].action, p0.save_requests)
                },
                None => {
                    &&& p1.cursor == p0.cursor
                    &&& p1.quitting == p0.quitting
                    &&& p1.save_requests == p0.save_requests
                },
            }
        },
        _ => p1 == p0,
    }
}

/// The per-keypress editor: the dispatch state plus the registered mapping
/// and command tables.
#[derive(Debug)]
pub struct Jim {
    pub properties: JimProperties,
    pub nmaps: Vec<Mapping>,
    pub imaps: Vec<Mapping>,
    pub cmaps: Vec<Command>,
}

/// What a key press in Normal mode does: the key joins the rolling history,
/// then every registered Normal-mode mapping is evaluated against it in
/// registration order.
pub open spec fn normal_key_post(j0: Jim, j1: Jim, key: Key) -> bool {
    &&& j1.imaps == j0.imaps
    &&& j1.cmaps == j0.cmaps
    &&& exists|pmid: JimProperties|
        {
            &&& pmid.file == j0.properties.file
            &&& pmid.mode == j0.properties.mode
            &&& pmid.cursor == j0.properties.cursor
            &&& pmid.quitting == j0.properties.quitting
            &&& pmid.command_line == j0.properties.command_line
            &&& pmid.cant_press_maps == j0.properties.cant_press_maps
            &&& pmid.save_requests == j0.properties.save_requests
            &&& pmid.buttons_pressed@ == pushed_history(j0.properties.buttons_pressed@, key)
            &&& #[trigger] run_maps_rel(j0.nmaps@, pmid, j1.nmaps@, j1.properties)
        }
}

impl Jim {
    /// A fresh editor: an empty unnamed buffer, the cursor at the origin,
    /// Normal mode, and no registered mappings or commands.
    pub fn new() -> (r: Self)
        ensures
            r.properties.file.path@ == Seq::<char>::empty(),
            r.properties.file.contents@ == Seq::<char>::empty(),
            r.properties.mode == Mode::Normal,
            r.properties.cursor.index == 0,
            r.properties.cursor.xy_pos.x == 0,
            r.properties.cursor.xy_pos.y == 0,
            r.properties.quitting == false,
            r.properties.buttons_pressed@ == Seq::<Key>::empty(),
            r.properties.command_line@ == Seq::<char>::empty(),
            r.properties.cant_press_maps == false,
            r.properties.save_requests == 0,
            r.nmaps@ == Seq::<Mapping>::empty(),
            r.imaps@ == Seq::<Mapping>::empty(),
            r.cmaps@ == Seq::<Command>::empty(),
            r.properties.wf(),
    {
        Jim {
            properties: JimProperties {
                file: JimFile::new(String::new(), Vec::new()),
                mode: Mode::Normal,
                cursor: Cursor::default(),
                quitting: false,
                buttons_pressed: Vec::new(),
                command_line: Vec::new(),
                cant_press_maps: false,
                save_requests: 0,
            },
            nmaps: Vec::new(),
            imaps: Vec::new(),
            cmaps: Vec::new(),
        }
    }

    /// Registers Normal-mode mappings, after those already registered.
    pub fn add_nmaps(self, nmaps: Vec<Mapping>) -> (r: Self)
        ensures
            r.nmaps@ == self.nmaps@ + nmaps@,
            r.imaps == self.imaps,
            r.cmaps == self.cmaps,
            r.properties == self.properties,
    {
        let mut out = self;
        let mut more = nmaps;
        out.nmaps.append(&mut more);
        out
    }

    /// Registers Insert-mode mappings, after those already registered.
    pub fn add_imaps(self, imaps: Vec<Mapping>) -> (r: Self)
        ensures
            r.imaps@ == self.imaps@ + imaps@,
            r.nmaps == self.nmaps,
            r.cmaps == self.cmaps,
            r.properties == self.properties,
    {
        let mut out = self;
        let mut more = imaps;
        out.imaps.append(&mut more);
        out
    }

    /// Registers command bindings, after those already registered.
    pub fn add_cmaps(self, cmaps: Vec<Command>) -> (r: Self)
        ensures
            r.cmaps@ == self.cmaps@ + cmaps@,
            r.nmaps == self.nmaps,
            r.imaps == self.imaps,
            r.properties == self.properties,
    {
        let mut out = self;
        let mut more = cmaps;
        out.cmaps.append(&mut more);
        out
    }

    /// Routes one key press by the current mode.
    pub fn key_press(&mut self, key: Key)
        requires
            old(self).properties.wf(),
            old(self).properties.file.contents@.len() < usize::MAX,
        ensures
            final(self).properties.wf(),
            old(self).properties.mode == Mode::Normal ==> normal_key_post(
                *old(self),
                *final(self),
                key,
            ),
            old(self).properties.mode == Mode::Insert ==> insert_key_post(
                old(self).properties,
                final(self).properties,
                key,
            ) && final(self).nmaps == old(self).nmaps && final(self).imaps == old(self).imaps
                && final(self).cmaps == old(self).cmaps,
            old(self).properties.mode == Mode::Command ==> command_key_post(
                old(self).properties,
                final(self).properties,
                key,
                old(self).cmaps@,
            ) && final(self).nmaps == old(self).nmaps && final(self).imaps == old(self).imaps
                && final(self).cmaps == old(self).cmaps,
    {
        match self.properties.mode {
            Mode::Normal => self.normal(key),
            Mode::Insert => self.insert(key),
            Mode::Command => self.command(key),
        }
    }

    /// Handles one Normal-mode key press: appends it to the rolling history
    /// and evaluates every registered Normal-mode mapping in order.
    pub fn normal(&mut self, key: Key)
        requires
            old(self).properties.wf(),
        ensures
            normal_key_post(*old(self), *final(self), key),
            final(self).properties.wf(),
    {
        if self.properties.buttons_pressed.len() >= KEY_HISTORY_LIMIT {
            self.properties.buttons_pressed.remove(0);
            proof {
                assert(self.properties.buttons_pressed@ =~= old(
                    self,
                ).properties.buttons_pressed@.skip(1));
            }
        }
        self.properties.buttons_pressed.push(key);
        let ghost pmid = self.properties;
        let ghost maps0 = self.nmaps@;
        let n = self.nmaps.len();
        let mut i: usize = 0;
        proof {
            assert(maps0.take(0) =~= Seq::<Mapping>::empty());
            assert(run_maps_rel(maps0.take(0), pmid, self.nmaps@.take(0), self.properties));
        }
        while i < n
            invariant
                i <= n,
                n == self.nmaps@.len(),
                maps0.len() == n,
                forall|k: int| i <= k < n ==> self.nmaps@[k] == maps0[k],
                run_maps_rel(
                    maps0.take(i as int),
                    pmid,
                    self.nmaps@.take(i as int),
                    self.properties,
                ),
                self.properties.wf(),
                self.imaps == old(self).imaps,
                self.cmaps == old(self).cmaps,
            decreases n - i,
        {
            let ghost maps_before = self.nmaps@;
            let ghost p_before = self.properties;
            let mut m = self.nmaps.remove(i);
            m.try_use(&mut self.properties);
            self.nmaps.insert(i, m);
            proof {
                assert(self.nmaps@ =~= maps_before.update(i as int, m));
                assert(maps0.take(i + 1) =~= maps0.take(i as int).push(maps0[i as int]));
                assert(self.nmaps@.take(i + 1) =~= maps_before.take(i as int).push(m));
                assert(maps_before.take(i as int) =~= self.nmaps@.take(i as int));
                lemma_run_maps_snoc(
                    maps0.take(i as int),
                    pmid,
                    maps_before.take(i as int),
                    p_before,
                    maps0[i as int],
                    m,
                    self.properties,
                );
            }
            i = i + 1;
        }
        proof {
            assert(maps0.take(n as int) =~= maps0);
            assert(self.nmaps@.take(n as int) =~= self.nmaps@);
        }
    }

    /// Handles one Insert-mode key press: writes, deletes, or leaves for
    /// Normal mode on escape. Keys the mode gives no meaning are ignored.
    pub fn insert(&mut self, key: Key)
        requires
            old(self).properties.wf(),
            old(self).properties.file.contents@.len() < usize::MAX,
        ensures
            insert_key_post(old(self).properties, final(self).properties, key),
            final(self).nmaps == old(self).nmaps,
            final(self).imaps == old(self).imaps,
            final(self).cmaps == old(self).cmaps,
            final(self).properties.wf(),
    {
        match key {
            Key::Esc => self.to_normal_mode(),
            Key::Char(c) => self.properties.cursor.write_char_to(c, &mut self.properties.file),
            Key::Enter => self.properties.cursor.write_char_to('\n', &mut self.properties.file),
            Key::Backspace => self.properties.cursor.backspace(&mut self.properties.file),
            _ => {},
        }
    }

    /// Leaves Insert mode: back to Normal, the cursor stepping one column
    /// left so that it lands on, not after, the last inserted character.
    fn to_normal_mode(&mut self)
        requires
            old(self).properties.wf(),
        ensures
            final(self).properties.mode == Mode::Normal,
            final(self).properties.cursor == old(self).properties.cursor.move_left_spec(),
            final(self).properties.file == old(self).properties.file,
            final(self).properties.buttons_pressed == old(self).properties.buttons_pressed,
            final(self).properties.command_line == old(self).properties.command_line,
            final(self).properties.cant_press_maps == old(self).properties.cant_press_maps,
            final(self).properties.quitting == old(self).properties.quitting,
            final(self).properties.save_requests == old(self).properties.save_requests,
            final(self).nmaps == old(self).nmaps,
            final(self).imaps == old(self).imaps,
            final(self).cmaps == old(self).cmaps,
            final(self).properties.wf(),
    {
        self.properties.mode = Mode::Normal;
        self.properties.cursor.move_left(&self.properties.file);
    }

    /// The first registered command whose name equals the typed command line
    /// verbatim.
    fn find_command_index(&self) -> (r: Option<usize>)
        ensures
            (match find_command(self.cmaps@, self.properties.command_line@) {
                Some(i) => 0 <= i < self.cmaps@.len() && r == Some(i as usize),
                None => r == None::<usize>,
            }),
    {
        let n = self.cmaps.len();
        let mut i: usize = 0;
        while i < n
            invariant
                i <= n,
                n == self.cmaps@.len(),
                forall|k: int| 0 <= k < i ==> self.cmaps@[k].name@ != self.properties.command_line@,
            decreases n - i,
        {
            if chars_eq(&self.cmaps[i].name, &self.properties.command_line) {
                proof {
                    lemma_find_command_prefix(
                        self.cmaps@,
                        self.properties.command_line@,
                        i as int,
                    );
                }
                return Some(i);
            }
            i = i + 1;
        }
        proof {
            lemma_find_command_prefix(self.cmaps@, self.properties.command_line@, n as int);
        }
        None
    }

    /// Handles one Command-mode key press: accumulates the command line,
    /// and on Enter executes the first exact match, silently ignoring an
    /// unbound line, then clears the line and returns to Normal mode.
    pub fn command(&mut self, key: Key)
        requires
            old(self).properties.wf(),
        ensures
            command_key_post(old(self).properties, final(self).properties, key, old(self).cmaps@),
            final(self).nmaps == old(self).nmaps,
            final(self).imaps == old(self).imaps,
            final(self).cmaps == old(self).cmaps,
            final(self).properties.wf(),
    {
        match key {
            Key::Char(c) => {
                proof {
                    assert(key == Key::Char(c));
                }
                self.properties.command_line.push(c);
            },
            Key::Backspace => {
                self.properties.command_line.pop();
                proof {
                    if old(self).properties.command_line@.len() > 0 {
                        assert(self.properties.command_line@ =~= old(
                            self,
                        ).properties.command_line@.drop_last());
                    }
                }
            },
            Key::Esc => {
                self.properties.command_line.clear();
                self.properties.mode = Mode::Normal;
            },
            Key::Enter => {
                let ghost fc = find_command(self.cmaps@, self.properties.command_line@);
                // The table length bounds the found index, so the index
                // conversion below is exact.
                let total = self.cmaps.len();
                let found = self.find_command_index();
                match found {
                    Some(i) => {
                        proof {
                            assert(fc is Some);
                            assert(found == Some(fc->0 as usize));
                            assert(i as int == fc->0);
                        }
                        let a = self.cmaps[i].action;
                        apply_action(a, &mut self.properties);
                    },
                    None => {
                        proof {
                            assert(fc is None);
                        }
                    },
                }
                self.properties.command_line.clear();
                self.properties.mode = Mode::Normal;
            },
            _ => {},
        }
    }
}

} // verus!
