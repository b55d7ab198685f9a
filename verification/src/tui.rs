//! What the terminal UI shows and how it reacts to keys, apart from drawing.
use vstd::prelude::*;
use crate::resolve::{RemoteSource, ResolveStatus, ResolvedMod, ResolvedModView};
use crate::text::{is_ws, lemma_trim, append_str, chars_of, join_strings, joined, string_of, slice_chars, strings_view, trim, trim_chars};

verus! {

/// The spinner: ASCII when forced or on Windows, Braille dots otherwise.
pub open spec fn spinner_frames_for(force_ascii: bool, is_windows: bool) -> Seq<char> {
    if force_ascii || is_windows {
        seq!['|', '/', '-', '\\']
    } else {
        seq!['⠋', '⠙', '⠹', '⠸', '⠼', '⠴', '⠦', '⠧', '⠇', '⠏']
    }
}

pub fn pick_spinner_frames(force_ascii: bool, is_windows: bool) -> (r: Vec<char>)
    ensures
        r@ == spinner_frames_for(force_ascii, is_windows),
{
    if force_ascii || is_windows {
        let v = vec!['|', '/', '-', '\\'];
        assert(v@ =~= seq!['|', '/', '-', '\\']);
        v
    } else {
        let v = vec!['⠋', '⠙', '⠹', '⠸', '⠼', '⠴', '⠦', '⠧', '⠇', '⠏'];
        assert(v@ =~= seq!['⠋', '⠙', '⠹', '⠸', '⠼', '⠴', '⠦', '⠧', '⠇', '⠏']);
        v
    }
}

/// Whether the help shows after a toggle.
pub open spec fn toggled(shown: bool) -> bool {
    !shown
}

/// Shows the help when hidden and hides it when shown.
pub fn toggle_help(show_help: &mut bool)
    ensures
        *final(show_help) == toggled(*old(show_help)),
{
    *show_help = !*show_help;
}

/// Toggling the help twice leaves it as it was.
pub proof fn law_toggle_help_twice(shown: bool)
    ensures
        toggled(toggled(shown)) == shown,
{
}

pub open spec fn footer_text() -> Seq<char> {
    "? Help  |  j/k Move  |  d Download selected update  |  r Refresh scan  |  q Quit"@
}

/// The key reminder shown when there is no status message.
pub fn default_footer_text() -> (r: &'static str)
    ensures
        r@ == footer_text(),
{
    "? Help  |  j/k Move  |  d Download selected update  |  r Refresh scan  |  q Quit"
}

pub open spec fn note_for(status: ResolveStatus) -> Seq<char> {
    match status {
        ResolveStatus::UpToDate => "No newer file found for the selected target."@,
        ResolveStatus::UpdateAvailable => "Press d to download the selected update."@,
        ResolveStatus::Unknown => "No compatible candidate found for this loader/MC target."@,
        ResolveStatus::Error => "Resolution failed. Check note details."@,
        ResolveStatus::Pending => "Resolving metadata..."@,
        ResolveStatus::Resolving => "Resolving metadata..."@,
    }
}

/// The note of a row that has neither a detail nor a project label.
pub fn default_note(status: ResolveStatus) -> (r: &'static str)
    ensures
        r@ == note_for(status),
{
    match status {
        ResolveStatus::UpToDate => "No newer file found for the selected target.",
        ResolveStatus::UpdateAvailable => "Press d to download the selected update.",
        ResolveStatus::Unknown => "No compatible candidate found for this loader/MC target.",
        ResolveStatus::Error => "Resolution failed. Check note details.",
        ResolveStatus::Pending | ResolveStatus::Resolving => "Resolving metadata...",
    }
}

pub open spec fn label_for(status: ResolveStatus) -> Seq<char> {
    match status {
        ResolveStatus::Pending => "pending"@,
        ResolveStatus::Resolving => "resolving"@,
        ResolveStatus::UpToDate => "up to date"@,
        ResolveStatus::UpdateAvailable => "update available"@,
        ResolveStatus::Unknown => "needs review"@,
        ResolveStatus::Error => "error"@,
    }
}

/// The text of the status column.
pub fn status_label(status: ResolveStatus) -> (r: &'static str)
    ensures
        r@ == label_for(status),
{
    match status {
        ResolveStatus::Pending => "pending",
        ResolveStatus::Resolving => "resolving",
        ResolveStatus::UpToDate => "up to date",
        ResolveStatus::UpdateAvailable => "update available",
        ResolveStatus::Unknown => "needs review",
        ResolveStatus::Error => "error",
    }
}

/// `s` trimmed; when longer than `max_chars` characters, its first `max_chars - 1`
/// (none when `max_chars` is 0) followed by `…`.
pub open spec fn ellipsized(s: Seq<char>, max_chars: nat) -> Seq<char> {
    let t = trim(s);
    if t.len() <= max_chars {
        t
    } else {
        let take: int = if max_chars > 0 {
            max_chars - 1
        } else {
            0
        };
        t.subrange(0, take) + seq!['…']
    }
}

pub fn ellipsize(s: &str, max_chars: usize) -> (r: String)
    ensures
        r@ == ellipsized(s@, max_chars as nat),
{
    let c = chars_of(s);
    let t = trim_chars(c.as_slice());
    if t.len() <= max_chars {
        return string_of(t.as_slice());
    }
    let take: usize = if max_chars > 0 {
        max_chars - 1
    } else {
        0
    };
    let mut out = slice_chars(t.as_slice(), 0, take);
    out.push('…');
    string_of(out.as_slice())
}

/// An ellipsized text is never longer than `max_chars` (or one character, for 0).
pub proof fn law_ellipsize_fits(s: Seq<char>, max_chars: nat)
    ensures
        ellipsized(s, max_chars).len() <= if max_chars > 0 {
            max_chars
        } else {
            1
        },
{
}

/// Cutting a text twice to the same width gives what cutting it once gives.
pub proof fn law_ellipsize_idempotent(s: Seq<char>, max_chars: nat)
    ensures
        ellipsized(ellipsized(s, max_chars), max_chars) == ellipsized(s, max_chars),
{
    let t = trim(s);
    lemma_trim(s);
    let e = ellipsized(s, max_chars);
    if t.len() > max_chars {
        let take: int = if max_chars > 0 {
            max_chars - 1
        } else {
            0
        };
        assert(!is_ws('…'));
        assert(e.last() == '…');
        if take > 0 {
            assert(e[0] == t[0]);
        }
        lemma_trim(e);
    }
}

/// Bytes of a character in UTF-8.
pub open spec fn utf8_len(c: char) -> nat {
    if (c as u32) < 0x80 {
        1
    } else if (c as u32) < 0x800 {
        2
    } else if (c as u32) < 0x10000 {
        3
    } else {
        4
    }
}

/// Bytes of the first `k` characters of `s` in UTF-8.
pub open spec fn utf8_prefix_len(s: Seq<char>, k: int) -> nat
    decreases k,
{
    if k <= 0 {
        0
    } else {
        utf8_prefix_len(s, k - 1) + utf8_len(s[k - 1])
    }
}

/// The shortest prefix of at least six bytes, from `k` characters on.
pub open spec fn six_byte_cut(s: Seq<char>, k: int) -> Option<int>
    decreases s.len() + 1 - k,
{
    if k > s.len() || utf8_prefix_len(s, k) > 6 {
        None
    } else if utf8_prefix_len(s, k) == 6 {
        Some(k)
    } else {
        six_byte_cut(s, k + 1)
    }
}

/// `hash.get(..6).unwrap_or(hash)`: the characters making up the first six bytes when
/// those end on a character boundary, else the whole text.
pub open spec fn short_hash_chars(s: Seq<char>) -> Seq<char> {
    match six_byte_cut(s, 0) {
        Some(k) => s.subrange(0, k),
        None => s,
    }
}

fn char_utf8_len(c: char) -> (r: usize)
    ensures
        r == utf8_len(c),
{
    let u = c as u32;
    if u < 0x80 {
        1
    } else if u < 0x800 {
        2
    } else if u < 0x10000 {
        3
    } else {
        4
    }
}

pub fn short_hash(hash: &str) -> (r: &str)
    ensures
        r@ == short_hash_chars(hash@),
{
    let n = hash.unicode_len();
    let mut k: usize = 0;
    let mut bytes: usize = 0;
    while k <= n
        invariant
            n == hash@.len(),
            k <= n + 1,
            k <= n ==> bytes == utf8_prefix_len(hash@, k as int),
            bytes <= 6,
            six_byte_cut(hash@, 0) == six_byte_cut(hash@, k as int),
        decreases n + 1 - k,
    {
        if bytes == 6 {
            return hash.substring_char(0, k);
        }
        if k == n {
            assert(six_byte_cut(hash@, k as int) == six_byte_cut(hash@, k as int + 1));
            return hash;
        }
        let next = bytes + char_utf8_len(hash.get_char(k));
        if next > 6 {
            assert(six_byte_cut(hash@, k as int + 1) is None);
            return hash;
        }
        bytes = next;
        k = k + 1;
    }
    assert(six_byte_cut(hash@, n as int + 1) is None);
    hash
}

/// The match column: `=` for the installed file, `≠ ` and the start of the remote
/// SHA-512 (or a second `≠`) for another one, `?` when unknown.
pub open spec fn match_hint_text(identity: Option<bool>, sha512: Option<Seq<char>>) -> Seq<char> {
    match identity {
        Some(true) => "="@,
        Some(false) => "≠ "@ + match sha512 {
            Some(h) => short_hash_chars(h),
            None => "≠"@,
        },
        None => "?"@,
    }
}

/// The text of the match column for a row.
pub fn match_hint(row: &ResolvedMod) -> (r: String)
    ensures
        r@ == match_hint_text(row.identity_match, row@.remote_file_sha512),
{
    match row.identity_match {
        Some(true) => String::from_str("="),
        Some(false) => {
            let mut out: Vec<char> = Vec::new();
            append_str(&mut out, "≠ ");
            match &row.remote_file_sha512 {
                Some(h) => append_str(&mut out, short_hash(h.as_str())),
                None => append_str(&mut out, "≠"),
            }
            string_of(out.as_slice())
        },
        None => String::from_str("?"),
    }
}


/// The texts of one table row.
pub struct RowText {
    pub name: String,
    pub local: String,
    pub remote: String,
    pub source: String,
    pub hint: String,
    pub status: String,
    pub note: String,
}

pub open spec fn source_text(s: Option<RemoteSource>) -> Seq<char> {
    match s {
        Some(RemoteSource::Modrinth) => "Modrinth"@,
        Some(RemoteSource::CurseForge) => "CurseForge"@,
        None => "—"@,
    }
}

/// The note column: the row's detail, else its project label, else the status's note.
pub open spec fn note_text(r: ResolvedModView) -> Seq<char> {
    match r.detail {
        Some(d) => d,
        None => match r.project_label {
            Some(p) => p,
            None => note_for(r.status),
        },
    }
}

/// The cells of a row: the name cut to 28 characters, the versions (`—` when there is
/// no remote one), the host, the match hint, the status and the note cut to 42.
pub fn row_text(r: &ResolvedMod) -> (t: RowText)
    ensures
        t.name@ == ellipsized(r.display_name@, 28),
        t.local@ == r.local_version@,
        t.remote@ == (match r@.remote_version {
            Some(v) => v,
            None => "—"@,
        }),
        t.source@ == source_text(r.source),
        t.hint@ == match_hint_text(r.identity_match, r@.remote_file_sha512),
        t.status@ == label_for(r.status),
        t.note@ == ellipsized(note_text(r@), 42),
{
    let remote = match &r.remote_version {
        Some(v) => v.clone(),
        None => String::from_str("—"),
    };
    let source = match r.source {
        Some(RemoteSource::Modrinth) => String::from_str("Modrinth"),
        Some(RemoteSource::CurseForge) => String::from_str("CurseForge"),
        None => String::from_str("—"),
    };
    let note = match &r.detail {
        Some(d) => ellipsize(d.as_str(), 42),
        None => match &r.project_label {
            Some(p) => ellipsize(p.as_str(), 42),
            None => ellipsize(default_note(r.status), 42),
        },
    };
    RowText {
        name: ellipsize(r.display_name.as_str(), 28),
        local: r.local_version.clone(),
        remote,
        source,
        hint: match_hint(r),
        status: String::from_str(status_label(r.status)),
        note,
    }
}

/// How a table row is shaded.
#[derive(Debug, Clone, Copy, PartialEq, Eq, Structural)]
pub enum RowShade {
    Selected,
    Dim,
    Plain,
}

/// The selected row is highlighted; other odd rows are dimmed.
pub fn row_shade(idx: usize, selected: Option<usize>) -> (r: RowShade)
    ensures
        r == (if selected == Some(idx) {
            RowShade::Selected
        } else if idx % 2 == 1 {
            RowShade::Dim
        } else {
            RowShade::Plain
        }),
{
    if selected == Some(idx) {
        RowShade::Selected
    } else if idx % 2 == 1 {
        RowShade::Dim
    } else {
        RowShade::Plain
    }
}

pub open spec fn header_spec(version: Seq<char>, mc: Seq<char>, loaders: Seq<Seq<char>>, dir: Seq<char>) -> Seq<char> {
    " mod-updater v"@ + version + "  │  MC "@ + mc + "  │  loaders: "@ + joined(loaders, ", "@)
        + "  │  "@ + ellipsized(dir, 48)
}

/// The header line: program version, Minecraft version, loaders and the mods directory
/// (cut to 48 characters).
pub fn header_text(version: &str, mc: &str, loaders: &[String], dir: &str) -> (r: String)
    ensures
        r@ == header_spec(version@, mc@, strings_view(loaders@), dir@),
{
    let mut out: Vec<char> = Vec::new();
    append_str(&mut out, " mod-updater v");
    append_str(&mut out, version);
    append_str(&mut out, "  │  MC ");
    append_str(&mut out, mc);
    append_str(&mut out, "  │  loaders: ");
    let j = join_strings(loaders, ", ");
    append_str(&mut out, j.as_str());
    append_str(&mut out, "  │  ");
    let d = ellipsize(dir, 48);
    append_str(&mut out, d.as_str());
    string_of(out.as_slice())
}

/// The glyph before the header: the current spinner frame while loading, a check mark
/// after.
pub fn spinner_text(loading: bool, frames: &[char], spinner: usize) -> (r: String)
    requires
        loading ==> spinner < frames@.len(),
    ensures
        r@ == (if loading {
            seq![frames@[spinner as int], ' ']
        } else {
            "✓ "@
        }),
{
    if loading {
        let v = vec![frames[spinner], ' '];
        assert(v@ =~= seq![frames@[spinner as int], ' ']);
        string_of(v.as_slice())
    } else {
        String::from_str("✓ ")
    }
}

pub open spec fn progress_spec(loading: bool) -> Seq<char> {
    if loading {
        "Checking Modrinth/CurseForge for compatible updates..."@
    } else {
        "Ready. Press ? for help."@
    }
}

/// The progress note of the header.
pub fn progress_text(loading: bool) -> (r: &'static str)
    ensures
        r@ == progress_spec(loading),
{
    if loading {
        "Checking Modrinth/CurseForge for compatible updates..."
    } else {
        "Ready. Press ? for help."
    }
}

/// The table is replaced by a hint when loading is over and there are no rows.
pub fn shows_empty_hint(rows: usize, loading: bool) -> (r: bool)
    ensures
        r == (rows == 0 && !loading),
{
    rows == 0 && !loading
}

pub open spec fn empty_hint_text() -> Seq<char> {
    "No mod rows to display.\n\nCheck that your mods directory contains .jar files, then press r to rescan."@
}

/// The hint shown instead of an empty table.
pub fn empty_hint() -> (r: &'static str)
    ensures
        r@ == empty_hint_text(),
{
    "No mod rows to display.\n\nCheck that your mods directory contains .jar files, then press r to rescan."
}

pub open spec fn help_overlay_text() -> Seq<char> {
    "Controls\n- j / Down: Move selection down\n- k / Up: Move selection up\n- d: Download selected update\n- r: Refresh scan and resolve again\n- q / Esc: Quit\n- ?: Toggle this help\n\nTroubleshooting\n- If a mod shows unknown, the host may not have an exact tag for your target MC version.\n- Keep verify_after_download enabled to reject incompatible downloads."@
}

/// The help overlay.
pub fn help_text() -> (r: &'static str)
    ensures
        r@ == help_overlay_text(),
{
    "Controls\n- j / Down: Move selection down\n- k / Up: Move selection up\n- d: Download selected update\n- r: Refresh scan and resolve again\n- q / Esc: Quit\n- ?: Toggle this help\n\nTroubleshooting\n- If a mod shows unknown, the host may not have an exact tag for your target MC version.\n- Keep verify_after_download enabled to reject incompatible downloads."
}

/// The margin on each side of a centred box taking `percent` of the space.
pub fn centered_margin(percent: u16) -> (r: u16)
    requires
        percent <= 100,
    ensures
        r == (100 - percent) / 2,
{
    (100 - percent) / 2
}


/// A key the table reacts to.
#[derive(Debug, Clone, Copy, PartialEq, Eq, Structural)]
pub enum UiKey {
    Char(char),
    Esc,
    Up,
    Down,
    Other,
}

/// What the UI loop does next.
#[derive(Debug, Clone, Copy, PartialEq, Eq, Structural)]
pub enum UiAction {
    /// Redraw and wait for the next event.
    Continue,
    /// Leave the UI.
    Quit,
    /// Rescan the mods directory and resolve again.
    Refresh,
    /// Download the update of this row.
    Download(usize),
}

/// The result of a refresh.
pub enum RefreshOutcome {
    Rows(Vec<ResolvedMod>),
    ScanFailed(String),
    Cancelled,
}

/// The state of the table UI.
pub struct UiState {
    pub rows: Vec<ResolvedMod>,
    pub loading: bool,
    pub selected: Option<usize>,
    pub spinner: usize,
    pub status_msg: Option<String>,
    pub show_help: bool,
}

pub struct UiView {
    pub rows: Seq<ResolvedModView>,
    pub loading: bool,
    pub selected: Option<usize>,
    pub spinner: usize,
    pub status_msg: Option<Seq<char>>,
    pub show_help: bool,
}

pub open spec fn rows_view(v: Seq<ResolvedMod>) -> Seq<ResolvedModView> {
    v.map_values(|r: ResolvedMod| r@)
}

pub open spec fn msg_view(m: Option<String>) -> Option<Seq<char>> {
    match m {
        Some(s) => Some(s@),
        None => None,
    }
}

impl View for UiState {
    type V = UiView;

    open spec fn view(&self) -> UiView {
        UiView {
            rows: rows_view(self.rows@),
            loading: self.loading,
            selected: self.selected,
            spinner: self.spinner,
            status_msg: msg_view(self.status_msg),
            show_help: self.show_help,
        }
    }
}

/// The selection is a row of the table; while loading there are no rows.
pub open spec fn ui_wf(u: UiView) -> bool {
    &&& (u.selected matches Some(i) ==> i < u.rows.len())
    &&& (u.loading ==> u.rows.len() == 0 && u.selected is None)
}

/// The selection after moving down: one row further, stopping at the last row.
pub open spec fn step_down(selected: Option<usize>, len: nat) -> Option<usize> {
    if len == 0 {
        selected
    } else {
        let i = match selected {
            Some(i) => i as int,
            None => 0,
        };
        Some((if i + 1 < len - 1 { i + 1 } else { len - 1 }) as usize)
    }
}

/// The selection after moving up: one row back, stopping at the first row.
pub open spec fn step_up(selected: Option<usize>, len: nat) -> Option<usize> {
    if len == 0 {
        selected
    } else {
        let i = match selected {
            Some(i) => i as int,
            None => 0,
        };
        Some((if i > 0 { i - 1 } else { 0 }) as usize)
    }
}

pub open spec fn no_update_msg() -> Seq<char> {
    "No update for this row (or unknown)."@
}

pub open spec fn no_url_msg() -> Seq<char> {
    "No download URL (third-party restriction?)."@
}

/// What a key does: the next state and the loop's next step.
pub open spec fn key_effect(u: UiView, key: UiKey) -> (UiView, UiAction) {
    match key {
        UiKey::Char('q') | UiKey::Esc => (u, UiAction::Quit),
        UiKey::Char('?') => (UiView { show_help: !u.show_help, ..u }, UiAction::Continue),
        UiKey::Char('r') if !u.loading => (u, UiAction::Refresh),
        UiKey::Down | UiKey::Char('j') => (UiView { selected: step_down(u.selected, u.rows.len()), ..u }, UiAction::Continue),
        UiKey::Up | UiKey::Char('k') => (UiView { selected: step_up(u.selected, u.rows.len()), ..u }, UiAction::Continue),
        UiKey::Char('d') => match u.selected {
            Some(i) if i < u.rows.len() => if u.rows[i as int].status != ResolveStatus::UpdateAvailable {
                (UiView { status_msg: Some(no_update_msg()), ..u }, UiAction::Continue)
            } else if u.rows[i as int].download_url is None {
                (UiView { status_msg: Some(no_url_msg()), ..u }, UiAction::Continue)
            } else {
                (u, UiAction::Download(i))
            },
            _ => (u, UiAction::Continue),
        },
        _ => (u, UiAction::Continue),
    }
}

pub open spec fn refresh_effect(u: UiView, rows: Option<Seq<ResolvedModView>>, err: Option<Seq<char>>) -> UiView {
    match rows {
        Some(rs) => UiView {
            rows: rs,
            selected: if rs.len() == 0 {
                None
            } else {
                Some(0)
            },
            status_msg: Some("Refreshed."@),
            ..u
        },
        None => match err {
            Some(e) => UiView { status_msg: Some("Scan error: "@ + e), ..u },
            None => UiView { status_msg: Some("Refresh cancelled."@), ..u },
        },
    }
}

impl UiState {
    /// The UI before the first resolution arrives.
    pub fn new() -> (r: Self)
        ensures
            r@.rows.len() == 0,
            r.loading,
            r.selected is None,
            r.spinner == 0,
            r.status_msg is None,
            !r.show_help,
            ui_wf(r@),
    {
        UiState {
            rows: Vec::new(),
            loading: true,
            selected: None,
            spinner: 0,
            status_msg: None,
            show_help: false,
        }
    }

    /// The first resolution arrived: show its rows, selecting the first one.
    pub fn on_loaded(&mut self, rows: Vec<ResolvedMod>)
        requires
            ui_wf(old(self)@),
        ensures
            ui_wf(final(self)@),
            old(self).loading ==> final(self)@ == (UiView {
                rows: rows_view(rows@),
                loading: false,
                selected: if rows@.len() > 0 {
                    Some(0usize)
                } else {
                    old(self).selected
                },
                ..old(self)@
            }),
            !old(self).loading ==> final(self)@ == old(self)@,
    {
        if self.loading {
            let nonempty = rows.len() > 0;
            self.rows = rows;
            self.loading = false;
            if nonempty {
                self.selected = Some(0);
            }
        }
    }

    /// A timer tick: the spinner turns while loading.
    pub fn on_tick(&mut self, frames: usize)
        requires
            old(self).spinner < frames,
        ensures
            final(self)@ == (UiView {
                spinner: if old(self).loading {
                    ((old(self).spinner + 1) % (frames as int)) as usize
                } else {
                    old(self).spinner
                },
                ..old(self)@
            }),
            old(self).loading ==> final(self).spinner < frames,
    {
        if self.loading {
            self.spinner = (self.spinner + 1) % frames;
        }
    }

    /// A key press.
    pub fn on_key(&mut self, key: UiKey) -> (r: UiAction)
        requires
            ui_wf(old(self)@),
        ensures
            (final(self)@, r) == key_effect(old(self)@, key),
            ui_wf(final(self)@),
    {
        if key == UiKey::Char('q') || key == UiKey::Esc {
            return UiAction::Quit;
        }
        if key == UiKey::Char('?') {
            self.show_help = !self.show_help;
            return UiAction::Continue;
        }
        if key == UiKey::Char('r') && !self.loading {
            return UiAction::Refresh;
        }
        if key == UiKey::Down || key == UiKey::Char('j') {
            if self.rows.len() > 0 {
                let i = match self.selected {
                    Some(i) => i,
                    None => 0,
                };
                let last = self.rows.len() - 1;
                self.selected = Some(if i + 1 < last { i + 1 } else { last });
            }
            return UiAction::Continue;
        }
        if key == UiKey::Up || key == UiKey::Char('k') {
            if self.rows.len() > 0 {
                let i = match self.selected {
                    Some(i) => i,
                    None => 0,
                };
                self.selected = Some(if i > 0 { i - 1 } else { 0 });
            }
            return UiAction::Continue;
        }
        if key == UiKey::Char('d') {
            if let Some(i) = self.selected {
                if i < self.rows.len() {
                    if self.rows[i].status != ResolveStatus::UpdateAvailable {
                        self.status_msg = Some(String::from_str("No update for this row (or unknown)."));
                        return UiAction::Continue;
                    }
                    if self.rows[i].download_url.is_none() {
                        self.status_msg = Some(String::from_str("No download URL (third-party restriction?)."));
                        return UiAction::Continue;
                    }
                    return UiAction::Download(i);
                }
            }
        }
        UiAction::Continue
    }

    /// The result of a refresh: new rows with the first selected, or a message.
    pub fn on_refresh(&mut self, outcome: RefreshOutcome)
        requires
            ui_wf(old(self)@),
            !old(self).loading,
        ensures
            ui_wf(final(self)@),
            final(self)@ == refresh_effect(
                old(self)@,
                match outcome {
                    RefreshOutcome::Rows(rs) => Some(rows_view(rs@)),
                    _ => None,
                },
                match outcome {
                    RefreshOutcome::ScanFailed(e) => Some(e@),
                    _ => None,
                },
            ),
    {
        match outcome {
            RefreshOutcome::Rows(rows) => {
                let empty = rows.len() == 0;
                self.rows = rows;
                self.selected = if empty {
                    None
                } else {
                    Some(0)
                };
                self.status_msg = Some(String::from_str("Refreshed."));
            },
            RefreshOutcome::ScanFailed(e) => {
                let mut out: Vec<char> = Vec::new();
                append_str(&mut out, "Scan error: ");
                append_str(&mut out, e.as_str());
                self.status_msg = Some(string_of(out.as_slice()));
            },
            RefreshOutcome::Cancelled => {
                self.status_msg = Some(String::from_str("Refresh cancelled."));
            },
        }
    }

    /// The result of downloading the update of row `idx`.
    pub fn on_download(&mut self, idx: usize, result: Result<(), String>)
        requires
            idx < old(self)@.rows.len(),
        ensures
            final(self)@ == (UiView {
                status_msg: Some(
                    match result {
                        Ok(_) => "Updated "@ + old(self)@.rows[idx as int].scan.file_name + "."@,
                        Err(e) => "Download failed: "@ + e@,
                    },
                ),
                ..old(self)@
            }),
    {
        let mut out: Vec<char> = Vec::new();
        match &result {
            Ok(_) => {
                append_str(&mut out, "Updated ");
                append_str(&mut out, self.rows[idx].scan.file_name.as_str());
                append_str(&mut out, ".");
            },
            Err(e) => {
                append_str(&mut out, "Download failed: ");
                append_str(&mut out, e.as_str());
            },
        }
        self.status_msg = Some(string_of(out.as_slice()));
    }
}

/// Every key keeps the selection on a row of the table.
pub proof fn law_keys_keep_selection(u: UiView, key: UiKey)
    requires
        ui_wf(u),
    ensures
        ui_wf(key_effect(u, key).0),
{
}

/// Moving down and then up returns to a selected row that is not the last one.
pub proof fn law_down_then_up(i: usize, len: nat)
    requires
        i + 1 < len <= usize::MAX,
    ensures
        step_up(step_down(Some(i), len), len) == Some(i),
{
}

} // verus!
