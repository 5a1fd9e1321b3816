//! The modal prompt that asks the operator for a number.
use vstd::prelude::*;
use vstd::string::*;

use crate::text::{
    chars_of, decimal, decimal_text, is_digit, occurs, parse_unsigned,
    texts_occur_where_they_stand, unsigned,
};
use crate::tui::labels::{plot_kind_label, PlotKind};
use crate::tui::number::{
    digits_and_point, fmt_prompt_secs, lemma_decimal_length, lemma_pow10_bounds,
    lemma_secs_text_readable, number, points, pow10, read_number, secs_text,
    whole_numbers_read_back, Decimal, MAX_DIGITS,
};

verus! {

/// A key press.
#[derive(Debug, Clone, Copy, PartialEq, Eq, Structural)]
pub enum Key {
    /// Escape.
    Esc,
    /// Ctrl-C.
    Interrupt,
    /// Enter.
    Enter,
    /// Backspace.
    Backspace,
    /// Tab.
    Tab,
    /// Arrow up.
    Up,
    /// Arrow down.
    Down,
    /// A character.
    Char(char),
    /// Any other key.
    Other,
}

impl Key {
    /// The key that a press counts as: with Ctrl held, `c` is Ctrl-C.
    pub fn pressed(self, ctrl: bool) -> (r: Key)
        ensures
            r == if ctrl && self == Key::Char('c') {
                Key::Interrupt
            } else {
                self
            },
    {
        if ctrl && self == Key::Char('c') {
            Key::Interrupt
        } else {
            self
        }
    }

    /// Whether the key dismisses a modal.
    pub open spec fn dismisses(self) -> bool {
        self is Esc || self is Interrupt
    }
}

/// Longest text that can be typed.
pub const MAX_TYPED: usize = 12;

/// What a prompt asks for.
#[derive(Debug)]
pub enum InputPromptKind {
    /// A refresh cadence in seconds (decimals accepted).
    RefreshSecs,
    /// A maximum for a plot's Y axis. A blank or zero value clears it.
    YMax(PlotKind),
    /// A worker count for one VM.
    SetThreads {
        /// The VM the prompt was opened for.
        vm_id: String,
        /// Its worker count when the prompt was opened.
        current: u32,
        /// Whether the request will be sticky.
        sticky: bool,
    },
}

/// What a prompt kind says.
pub enum KindModel {
    /// A refresh cadence.
    RefreshSecs,
    /// A maximum for a plot.
    YMax(PlotKind),
    /// A worker count.
    SetThreads {
        /// The VM.
        vm_id: Seq<char>,
        /// Its worker count.
        current: u32,
        /// Whether the request will be sticky.
        sticky: bool,
    },
}

impl View for InputPromptKind {
    type V = KindModel;

    open spec fn view(&self) -> KindModel {
        match self {
            InputPromptKind::RefreshSecs => KindModel::RefreshSecs,
            InputPromptKind::YMax(k) => KindModel::YMax(*k),
            InputPromptKind::SetThreads { vm_id, current, sticky } => KindModel::SetThreads {
                vm_id: vm_id@,
                current: *current,
                sticky: *sticky,
            },
        }
    }
}

impl KindModel {
    /// The heading of the prompt.
    pub open spec fn heading(self) -> Seq<char> {
        match self {
            KindModel::RefreshSecs => "refresh cadence (seconds)"@,
            KindModel::YMax(k) => "y-max for "@ + k.label() + " (0 clears)"@,
            KindModel::SetThreads { vm_id, .. } => "set thread count for "@ + vm_id,
        }
    }

    /// Whether the number may have a point.
    pub open spec fn takes_point(self) -> bool {
        !(self is SetThreads)
    }
}

impl InputPromptKind {
    /// Human-readable prompt shown at the top of the modal.
    pub fn title(&self) -> (r: String)
        ensures
            r@ == self@.heading(),
    {
        match self {
            InputPromptKind::RefreshSecs => "refresh cadence (seconds)".to_owned(),
            InputPromptKind::YMax(k) => "y-max for ".to_owned().concat(plot_kind_label(*k)).concat(
                " (0 clears)",
            ),
            InputPromptKind::SetThreads { vm_id, .. } => "set thread count for ".to_owned().concat(
                vm_id.as_str(),
            ),
        }
    }
}

/// A modal prompt and what has been typed into it.
#[derive(Debug)]
pub struct InputPrompt {
    /// What it asks for.
    pub kind: InputPromptKind,
    /// What has been typed.
    pub buffer: String,
}

/// What a prompt holds.
#[verifier::ext_equal]
pub struct PromptModel {
    /// What it asks for.
    pub kind: KindModel,
    /// What has been typed.
    pub buffer: Seq<char>,
}

impl View for InputPrompt {
    type V = PromptModel;

    open spec fn view(&self) -> PromptModel {
        PromptModel { kind: self.kind@, buffer: self.buffer@ }
    }
}

/// A request to set a VM's worker count.
#[derive(Debug)]
pub struct ThreadRequest {
    /// The VM.
    pub id: String,
    /// Its worker count so far.
    pub from: u32,
    /// The worker count asked for.
    pub to: u32,
    /// Whether automatic scaling is to leave it alone afterwards.
    pub sticky: bool,
}

/// What a request says.
#[verifier::ext_equal]
pub struct RequestModel {
    /// The VM.
    pub id: Seq<char>,
    /// Its worker count so far.
    pub from: u32,
    /// The worker count asked for.
    pub to: u32,
    /// Whether the request is sticky.
    pub sticky: bool,
}

impl View for ThreadRequest {
    type V = RequestModel;

    open spec fn view(&self) -> RequestModel {
        RequestModel { id: self.id@, from: self.from, to: self.to, sticky: self.sticky }
    }
}

/// What committing a prompt does.
#[derive(Debug)]
pub enum Commit {
    /// Set the refresh cadence, in nanoseconds.
    Refresh(u64),
    /// Lock or release a plot's Y axis.
    YMax(PlotKind, Option<Decimal>),
    /// Ask for a worker count.
    Threads(ThreadRequest),
}

/// What a commit says.
pub enum CommitModel {
    /// Set the refresh cadence, in nanoseconds.
    Refresh(u64),
    /// Lock or release a plot's Y axis.
    YMax(PlotKind, Option<Decimal>),
    /// Ask for a worker count.
    Threads(RequestModel),
}

impl View for Commit {
    type V = CommitModel;

    open spec fn view(&self) -> CommitModel {
        match self {
            Commit::Refresh(ns) => CommitModel::Refresh(*ns),
            Commit::YMax(k, v) => CommitModel::YMax(*k, *v),
            Commit::Threads(request) => CommitModel::Threads(request@),
        }
    }
}

/// What a key press in a prompt leads to.
#[derive(Debug)]
pub enum PromptOutcome {
    /// The prompt stays open.
    Open,
    /// The prompt closes without effect.
    Cancelled,
    /// The prompt closes and its value is applied.
    Committed(Commit),
}

impl PromptModel {
    /// Only digits and at most one point have been typed.
    pub open spec fn wf(self) -> bool {
        digits_and_point(self.buffer) && self.buffer.len() <= MAX_DIGITS
    }

    /// What Enter does: nothing (the prompt stays open) if the value is missing
    /// or out of range.
    ///
    /// A refresh cadence must be at least 50 milliseconds. A blank or zero Y
    /// maximum releases the axis. A worker count must be positive.
    pub open spec fn commit(self) -> Option<CommitModel> {
        match self.kind {
            KindModel::RefreshSecs => match number(self.buffer) {
                Some(d) => if d.at_least_a_twentieth() {
                    Some(CommitModel::Refresh(d.nanoseconds()))
                } else {
                    None
                },
                None => None,
            },
            KindModel::YMax(k) => if self.buffer.len() == 0 {
                Some(CommitModel::YMax(k, None))
            } else {
                match number(self.buffer) {
                    Some(d) => if d.mantissa == 0 {
                        Some(CommitModel::YMax(k, None))
                    } else {
                        Some(CommitModel::YMax(k, Some(d)))
                    },
                    None => None,
                }
            },
            KindModel::SetThreads { vm_id, current, sticky } => match parse_unsigned(
                self.buffer,
                u32::MAX as nat,
            ) {
                Ok(n) => if n == 0 {
                    None
                } else {
                    Some(
                        CommitModel::Threads(
                            RequestModel { id: vm_id, from: current, to: n as u32, sticky },
                        ),
                    )
                },
                Err(_) => None,
            },
        }
    }

    /// Whether a typed character is taken up: a digit, or the first point where
    /// the number may have one, while there is room.
    pub open spec fn accepts(self, c: char) -> bool {
        (is_digit(c) || (c == '.' && self.kind.takes_point() && points(self.buffer) == 0))
            && self.buffer.len() < MAX_TYPED
    }

    /// The prompt after a key that leaves it open.
    pub open spec fn edited(self, k: Key) -> PromptModel {
        match k {
            Key::Backspace => PromptModel {
                buffer: if self.buffer.len() == 0 {
                    self.buffer
                } else {
                    self.buffer.drop_last()
                },
                ..self
            },
            Key::Tab => self.flipped(),
            Key::Char(c) => if c == ' ' {
                self.flipped()
            } else if self.accepts(c) {
                PromptModel { buffer: self.buffer.push(c), ..self }
            } else {
                self
            },
            _ => self,
        }
    }

    /// The prompt with its sticky box flipped, if it has one.
    pub open spec fn flipped(self) -> PromptModel {
        match self.kind {
            KindModel::SetThreads { vm_id, current, sticky } => PromptModel {
                kind: KindModel::SetThreads { vm_id, current, sticky: !sticky },
                ..self
            },
            _ => self,
        }
    }
}

proof fn lemma_points_push(s: Seq<char>, c: char)
    ensures
        points(s.push(c)) == points(s) + (if c == '.' {
            1nat
        } else {
            0
        }),
{
    assert(s.push(c).drop_last() == s);
}

proof fn lemma_no_points(s: Seq<char>)
    ensures
        points(s) == 0 <==> !s.contains('.'),
    decreases s.len(),
{
    if s.len() > 0 {
        lemma_no_points(s.drop_last());
        let rest = s.drop_last();
        if rest.contains('.') {
            let k = choose|k: int| 0 <= k < rest.len() && rest[k] == '.';
            assert(s[k] == '.');
        }
        if s.contains('.') {
            let k = choose|k: int| 0 <= k < s.len() && s[k] == '.';
            if k < rest.len() {
                assert(rest[k] == '.');
            }
        }
        if s.last() == '.' {
            assert(s[s.len() - 1] == '.');
        }
    }
}

impl InputPrompt {
    /// The prompt for the refresh cadence, starting with the current one.
    pub fn for_refresh(period_ns: u64) -> (r: Self)
        ensures
            r@ == (PromptModel { kind: KindModel::RefreshSecs, buffer: secs_text(period_ns) }),
            r@.wf(),
    {
        proof {
            lemma_secs_text_readable(period_ns);
        }
        InputPrompt { kind: InputPromptKind::RefreshSecs, buffer: fmt_prompt_secs(period_ns) }
    }

    /// The prompt for a plot's Y maximum, starting with the current one rounded
    /// to a whole number.
    pub fn for_y_max(plot: PlotKind, current: Option<Decimal>) -> (r: Self)
        requires
            current matches Some(d) ==> d.wf(),
        ensures
            r@ == (PromptModel {
                kind: KindModel::YMax(plot),
                buffer: match current {
                    Some(d) => decimal(d.rounded()),
                    None => Seq::empty(),
                },
            }),
            r@.wf(),
    {
        let buffer = match &current {
            Some(d) => {
                let text = d.rounded_text();
                proof {
                    lemma_pow10_bounds(24);
                    reveal_with_fuel(pow10, 25);
                    lemma_decimal_length(d.rounded(), 24);
                    whole_numbers_read_back(d.rounded());
                }
                text
            },
            None => String::new(),
        };
        InputPrompt { kind: InputPromptKind::YMax(plot), buffer }
    }

    /// The prompt for a VM's worker count, starting with the current one.
    pub fn for_threads(vm_id: String, current: u32, sticky: bool) -> (r: Self)
        ensures
            r@ == (PromptModel {
                kind: KindModel::SetThreads { vm_id: vm_id@, current, sticky },
                buffer: decimal(current as nat),
            }),
            r@.wf(),
    {
        proof {
            reveal_with_fuel(pow10, 12);
            lemma_decimal_length(current as nat, 11);
            whole_numbers_read_back(current as nat);
        }
        InputPrompt {
            kind: InputPromptKind::SetThreads { vm_id, current, sticky },
            buffer: decimal_text(current as u128),
        }
    }

    /// Parse the operator's typed buffer. Failures (empty, out of range) leave
    /// the prompt open so the operator can correct their input.
    pub fn commit_input_prompt(&self) -> (r: Option<Commit>)
        requires
            self@.wf(),
        ensures
            match r {
                Some(commit) => self@.commit() == Some(commit@) && (
                commit matches Commit::YMax(_, Some(d)) ==> d.wf()),
                None => self@.commit() is None,
            },
    {
        match &self.kind {
            InputPromptKind::RefreshSecs => match read_number(self.buffer.as_str()) {
                Some(d) => match d.refresh_nanoseconds() {
                    Some(ns) => Some(Commit::Refresh(ns)),
                    None => None,
                },
                None => None,
            },
            InputPromptKind::YMax(k) => {
                if self.buffer.as_str().is_empty() {
                    return Some(Commit::YMax(*k, None));
                }
                match read_number(self.buffer.as_str()) {
                    Some(d) => if d.mantissa == 0 {
                        Some(Commit::YMax(*k, None))
                    } else {
                        Some(Commit::YMax(*k, Some(d)))
                    },
                    None => None,
                }
            },
            InputPromptKind::SetThreads { vm_id, current, sticky } => {
                match unsigned(self.buffer.as_str(), u32::MAX as u64) {
                    Ok(n) => if n == 0 {
                        None
                    } else {
                        proof {
                            lemma_parsed_bound(self.buffer@, u32::MAX as nat);
                        }
                        Some(
                            Commit::Threads(
                                ThreadRequest {
                                    id: vm_id.clone(),
                                    from: *current,
                                    to: n as u32,
                                    sticky: *sticky,
                                },
                            ),
                        )
                    },
                    Err(_) => None,
                }
            },
        }
    }

    /// Route a key press to the prompt. Only digits, the point, Backspace, Tab
    /// and Space (the sticky box), Enter, Esc and Ctrl-C are honoured.
    pub fn handle_input_prompt_key(&mut self, k: Key) -> (r: PromptOutcome)
        requires
            old(self)@.wf(),
        ensures
            final(self)@.wf(),
            k.dismisses() ==> r is Cancelled && final(self)@ == old(self)@,
            k is Enter ==> final(self)@ == old(self)@ && match r {
                PromptOutcome::Open => old(self)@.commit() is None,
                PromptOutcome::Cancelled => false,
                PromptOutcome::Committed(commit) => old(self)@.commit() == Some(commit@) && (
                commit matches Commit::YMax(_, Some(d)) ==> d.wf()),
            },
            !k.dismisses() && !(k is Enter) ==> r is Open && final(self)@ == old(self)@.edited(k),
    {
        match k {
            Key::Esc | Key::Interrupt => PromptOutcome::Cancelled,
            Key::Enter => match self.commit_input_prompt() {
                Some(commit) => PromptOutcome::Committed(commit),
                None => PromptOutcome::Open,
            },
            Key::Backspace => {
                let ghost before = self.buffer@;
                let _ = self.buffer.pop();
                proof {
                    if before.len() > 0 {
                        assert forall|i: int| 0 <= i < self.buffer@.len() implies is_digit(
                            #[trigger] self.buffer@[i],
                        ) || self.buffer@[i] == '.' by {
                            assert(self.buffer@[i] == before[i]);
                        }
                    }
                }
                PromptOutcome::Open
            },
            Key::Tab => {
                self.flip_sticky();
                PromptOutcome::Open
            },
            Key::Char(c) => {
                if c == ' ' {
                    self.flip_sticky();
                    return PromptOutcome::Open;
                }
                let v = chars_of(self.buffer.as_str());
                let mut pointed: bool = false;
                let mut i: usize = 0;
                while i < v.len()
                    invariant
                        i <= v@.len(),
                        v@ == self.buffer@,
                        pointed == v@.take(i as int).contains('.'),
                    decreases v@.len() - i,
                {
                    proof {
                        let a = v@.take(i as int);
                        let b = v@.take(i + 1);
                        assert(b == a.push(v@[i as int]));
                        if a.contains('.') {
                            let j = choose|j: int| 0 <= j < a.len() && a[j] == '.';
                            assert(b[j] == '.');
                        }
                        if b.contains('.') {
                            let j = choose|j: int| 0 <= j < b.len() && b[j] == '.';
                            if j < i {
                                assert(a[j] == '.');
                            }
                        }
                        if v@[i as int] == '.' {
                            assert(b[i as int] == '.');
                        }
                    }
                    if v[i] == '.' {
                        pointed = true;
                    }
                    i += 1;
                }
                proof {
                    assert(v@.take(v@.len() as int) == v@);
                    lemma_no_points(v@);
                    lemma_points_push(v@, c);
                }
                let takes_point: bool = match &self.kind {
                    InputPromptKind::SetThreads { .. } => false,
                    _ => true,
                };
                let digit: bool = '0' <= c && c <= '9';
                if (digit || (c == '.' && takes_point && !pointed)) && v.len() < MAX_TYPED {
                    self.buffer.push(c);
                }
                PromptOutcome::Open
            },
            _ => PromptOutcome::Open,
        }
    }

    /// Flip the sticky box, if there is one.
    fn flip_sticky(&mut self)
        ensures
            final(self)@ == old(self)@.flipped(),
    {
        match &mut self.kind {
            InputPromptKind::SetThreads { sticky, .. } => {
                *sticky = !*sticky;
            },
            _ => {},
        }
    }
}

proof fn lemma_parsed_bound(s: Seq<char>, max: nat)
    ensures
        parse_unsigned(s, max) matches Ok(n) ==> n <= max,
{
    if s.len() > 0 {
        if s[0] == '+' && s.len() > 1 {
            lemma_digits_bound(s.drop_first(), 0, max);
        } else {
            lemma_digits_bound(s, 0, max);
        }
    }
}

proof fn lemma_digits_bound(s: Seq<char>, acc: nat, max: nat)
    requires
        acc <= max,
    ensures
        crate::text::parse_digits(s, acc, max) matches Ok(n) ==> n <= max,
    decreases s.len(),
{
    if s.len() > 0 && is_digit(s[0]) {
        let next = acc * 10 + crate::text::digit_value(s[0]);
        if next <= max {
            lemma_digits_bound(s.drop_first(), next, max);
        }
    }
}

/// Committing an untouched worker-count prompt asks for the count it was opened
/// with, if that is positive.
pub proof fn untouched_thread_prompts_keep_the_count(vm_id: Seq<char>, current: u32, sticky: bool)
    requires
        current > 0,
    ensures
        (PromptModel {
            kind: KindModel::SetThreads { vm_id, current, sticky },
            buffer: decimal(current as nat),
        }).commit() == Some(
            CommitModel::Threads(
                RequestModel { id: vm_id, from: current, to: current, sticky },
            ),
        ),
{
    crate::text::decimal_round_trips(current as nat, u32::MAX as nat);
}

/// Committing an untouched refresh prompt keeps the cadence, for every cadence
/// of at least 50 milliseconds that is not less than a microsecond beyond whole
/// seconds.
pub proof fn untouched_refresh_prompts_keep_the_cadence(ns: u64)
    requires
        ns >= 50_000_000,
        ns % crate::tui::number::NANOS == 0 || ns % crate::tui::number::NANOS >= 1000,
    ensures
        (PromptModel { kind: KindModel::RefreshSecs, buffer: secs_text(ns) }).commit() == Some(
            CommitModel::Refresh(ns),
        ),
{
    crate::tui::number::cadences_read_back(ns);
    let d = number(secs_text(ns)).unwrap();
    let scale = d.scale();
    lemma_pow10_bounds(d.places as nat);
    assert(d.mantissa * 20 >= scale) by {
        if d.mantissa * 20 < scale {
            let all = (d.mantissa * crate::tui::number::NANOS) as nat;
            assert(all < 50_000_000 * scale) by (nonlinear_arith)
                requires
                    all == d.mantissa * 1_000_000_000,
                    d.mantissa * 20 < scale,
            ;
            assert(all / scale < 50_000_000) by (nonlinear_arith)
                requires
                    all < 50_000_000 * scale,
                    scale >= 1,
                    all >= 0,
            ;
        }
    }
}

/// A worker count of zero is never asked for.
pub proof fn zero_workers_are_never_asked_for(prompt: PromptModel)
    ensures
        prompt.commit() matches Some(CommitModel::Threads(request)) ==> request.to > 0,
{
    lemma_parsed_bound(prompt.buffer, u32::MAX as nat);
}

/// A prompt takes digits, and one point where the number may have one, until
/// twelve characters are typed.
pub proof fn prompts_take_numbers_only(prompt: PromptModel, c: char)
    ensures
        prompt.accepts(c) <==> prompt.buffer.len() < 12 && ('0' <= c <= '9' || (c == '.'
            && !(prompt.kind is SetThreads) && points(prompt.buffer) == 0)),
{
}

/// A taken character is appended, Backspace takes the last one back, Tab and Space
/// flip the sticky box of a worker prompt alone, and every other key changes
/// nothing.
pub proof fn prompts_are_edited_key_by_key(prompt: PromptModel, c: char, k: Key)
    ensures
        c != ' ' && prompt.accepts(c) ==> prompt.edited(Key::Char(c)) == (PromptModel {
            kind: prompt.kind,
            buffer: prompt.buffer.push(c),
        }),
        c != ' ' && !prompt.accepts(c) ==> prompt.edited(Key::Char(c)) == prompt,
        prompt.buffer.len() > 0 ==> prompt.edited(Key::Backspace) == (PromptModel {
            kind: prompt.kind,
            buffer: prompt.buffer.drop_last(),
        }),
        prompt.buffer.len() == 0 ==> prompt.edited(Key::Backspace) == prompt,
        c != ' ' && prompt.accepts(c) ==> prompt.edited(Key::Char(c)).edited(Key::Backspace)
            == prompt,
        prompt.edited(Key::Tab) == prompt.edited(Key::Char(' ')),
        prompt.edited(Key::Tab).buffer == prompt.buffer,
        prompt.kind matches KindModel::SetThreads { vm_id, current, sticky } ==> prompt.edited(
            Key::Tab,
        ).kind == (KindModel::SetThreads { vm_id, current, sticky: !sticky }),
        !(prompt.kind is SetThreads) ==> prompt.edited(Key::Tab) == prompt,
        k is Up || k is Down || k is Other ==> prompt.edited(k) == prompt,
{
    if prompt.accepts(c) {
        assert(prompt.buffer.push(c).drop_last() == prompt.buffer);
    }
}

/// A typed cadence is taken where it is a number of at least a twentieth of a
/// second, and then in nanoseconds.
pub proof fn typed_cadences_are_taken(buffer: Seq<char>)
    ensures
        ({
            let commit = (PromptModel { kind: KindModel::RefreshSecs, buffer }).commit();
            match number(buffer) {
                None => commit is None,
                Some(d) => if d.mantissa * 20 >= pow10(d.places as nat) {
                    commit == Some(CommitModel::Refresh(d.nanoseconds()))
                } else {
                    commit is None
                },
            }
        }),
{
}

/// A typed maximum is for the plot that was asked about; none and nothing release
/// it.
pub proof fn typed_maxima_are_taken(buffer: Seq<char>, plot: PlotKind)
    ensures
        ({
            let commit = (PromptModel { kind: KindModel::YMax(plot), buffer }).commit();
            &&& buffer.len() == 0 ==> commit == Some(CommitModel::YMax(plot, None))
            &&& buffer.len() > 0 ==> match number(buffer) {
                None => commit is None,
                Some(d) => if d.mantissa == 0 {
                    commit == Some(CommitModel::YMax(plot, None))
                } else {
                    commit == Some(CommitModel::YMax(plot, Some(d)))
                },
            }
        }),
{
}

/// A typed worker count is asked for on behalf of the VM that the prompt was opened
/// for, from the count that it had then, with the sticky box as it stands; anything
/// else than a positive count leaves the prompt open.
pub proof fn typed_worker_counts_are_asked_for(
    buffer: Seq<char>,
    vm_id: Seq<char>,
    current: u32,
    sticky: bool,
)
    ensures
        ({
            let commit = (PromptModel {
                kind: KindModel::SetThreads { vm_id, current, sticky },
                buffer,
            }).commit();
            match parse_unsigned(buffer, 0xffff_ffff) {
                Ok(n) => if n == 0 {
                    commit is None
                } else {
                    commit matches Some(CommitModel::Threads(request)) && request.id == vm_id
                        && request.from == current && request.sticky == sticky && (n <= u32::MAX
                        ==> request.to == n)
                },
                Err(_) => commit is None,
            }
        }),
{
}

/// Escape and Ctrl-C close a prompt, and no other key does without a value.
pub proof fn only_escape_dismisses(k: Key)
    ensures
        k.dismisses() <==> k == Key::Esc || k == Key::Interrupt,
{
}

/// Only `c` with the control key interrupts; every other key stays itself.
pub proof fn control_c_interrupts(k: Key, ctrl: bool, pressed: Key)
    requires
        call_ensures(Key::pressed, (k, ctrl), pressed),
    ensures
        ctrl && k == Key::Char('c') ==> pressed is Interrupt,
        !(ctrl && k == Key::Char('c')) ==> pressed == k,
{
}

/// The heading of a prompt names what it is for: the VM, or the pane.
pub proof fn headings_name_their_subject(vm_id: Seq<char>, current: u32, sticky: bool, k: PlotKind)
    ensures
        vm_id.is_suffix_of((KindModel::SetThreads { vm_id, current, sticky }).heading()),
        occurs(KindModel::YMax(k).heading(), k.label()),
{
    texts_occur_where_they_stand("y-max for "@, k.label(), " (0 clears)"@, k.label());
    let whole = "set thread count for "@ + vm_id;
    assert(whole.subrange(whole.len() - vm_id.len(), whole.len() as int) =~= vm_id);
}

} // verus!
