//! A channel: its message log, the cursor from which the visible window of the
//! log is derived, and the transitions that scrolling and fetched history make.

use crate::message::{Message, MessageId};
use crate::ordered::{holds_key, inserted, lemma_position, OrderedCollection};
use vstd::prelude::*;

verus! {

/// How many messages are shown at once.
pub const SHOWN_MSGS_LIMIT: usize = 32;

/// `a - b`, or 0 where `b` is the larger.
pub open spec fn minus(a: nat, b: nat) -> nat {
    if a >= b {
        (a - b) as nat
    } else {
        0
    }
}

/// The position behind the last visible message, for a cursor and a log length.
pub open spec fn window_end(cursor: nat, len: nat) -> nat {
    if cursor + SHOWN_MSGS_LIMIT <= len {
        cursor + SHOWN_MSGS_LIMIT as nat
    } else {
        len
    }
}

/// The position of the first visible message, for a cursor and a log length.
pub open spec fn window_start(cursor: nat, len: nat) -> nat {
    minus(window_end(cursor, len), SHOWN_MSGS_LIMIT as nat)
}

/// The window is part of the log and holds no more than `SHOWN_MSGS_LIMIT`
/// messages, whatever the cursor and the length of the log.
pub proof fn lemma_window_bound(cursor: nat, len: nat)
    ensures
        window_start(cursor, len) <= window_end(cursor, len) <= len,
        window_end(cursor, len) - window_start(cursor, len) <= SHOWN_MSGS_LIMIT,
{
}

/// The positions `[start, end)` of the log that are visible when the cursor is at
/// `looking_at_message` and the log holds `message_count` messages.
pub fn visible_range(looking_at_message: usize, message_count: usize) -> (range: (usize, usize))
    ensures
        range.0 == window_start(looking_at_message as nat, message_count as nat),
        range.1 == window_end(looking_at_message as nat, message_count as nat),
        range.0 <= range.1 <= message_count,
        range.1 - range.0 <= SHOWN_MSGS_LIMIT,
{
    let shifted: usize = looking_at_message.saturating_add(SHOWN_MSGS_LIMIT);
    let end: usize = if shifted < message_count { shifted } else { message_count };
    let start: usize = end.saturating_sub(SHOWN_MSGS_LIMIT);
    (start, end)
}

/// The way a scroll event goes.
#[derive(Debug, Clone, Copy, PartialEq, Eq)]
pub enum ScrollDirection {
    TowardTop,
    TowardBottom,
}

/// The cursor after a scroll toward the top: from the end of the log it goes back
/// by a page and one, from anywhere else by one.
pub open spec fn cursor_after_scroll_up(cursor: nat, len: nat) -> nat {
    if cursor >= len {
        minus(len, (SHOWN_MSGS_LIMIT + 1) as nat)
    } else {
        minus(cursor, 1)
    }
}

/// The cursor after a scroll toward the bottom: within a page of the newest
/// message it goes to that message, from anywhere else it advances by one.
pub open spec fn cursor_after_scroll_down(cursor: nat, len: nat) -> nat {
    if cursor > minus(len, SHOWN_MSGS_LIMIT as nat) {
        minus(len, 1)
    } else if cursor + 1 <= len {
        cursor + 1
    } else {
        len
    }
}

/// The cursor after a scroll event.
pub open spec fn cursor_after_scroll(cursor: nat, len: nat, direction: ScrollDirection) -> nat {
    match direction {
        ScrollDirection::TowardTop => cursor_after_scroll_up(cursor, len),
        ScrollDirection::TowardBottom => cursor_after_scroll_down(cursor, len),
    }
}

/// After a scroll event the cursor is within the log, wherever it was.
pub proof fn lemma_cursor_stays_in_log(cursor: nat, len: nat, direction: ScrollDirection)
    ensures
        0 <= cursor_after_scroll(cursor, len, direction) <= len,
{
}

/// The cursor that a scroll event leaves, for a cursor and a log length.
pub fn scroll_cursor(looking_at_message: usize, message_count: usize, direction: ScrollDirection) -> (cursor:
    usize)
    ensures
        cursor == cursor_after_scroll(
            looking_at_message as nat,
            message_count as nat,
            direction,
        ),
        cursor <= message_count,
{
    match direction {
        ScrollDirection::TowardTop => {
            if looking_at_message >= message_count {
                message_count.saturating_sub(SHOWN_MSGS_LIMIT + 1)
            } else {
                looking_at_message.saturating_sub(1)
            }
        },
        ScrollDirection::TowardBottom => {
            if looking_at_message > message_count.saturating_sub(SHOWN_MSGS_LIMIT) {
                message_count.saturating_sub(1)
            } else {
                let next: usize = looking_at_message.saturating_add(1);
                if next < message_count {
                    next
                } else {
                    message_count
                }
            }
        },
    }
}

/// A request for the messages that precede a message of the log.
#[derive(Debug, Clone, Copy, PartialEq, Eq)]
pub struct FetchRequest {
    /// The confirmed id of the oldest visible message, or 0 where the window is
    /// empty or that message is not confirmed yet.
    pub before_message: u64,
}

/// Whether a request for older messages is under way.
#[derive(Debug, Clone, Copy, PartialEq, Eq)]
pub enum PaginationState {
    Idle,
    FetchingOlder,
}

/// The id before which older messages are asked for: the confirmed id of the
/// first message of the window, or 0 where there is none.
pub open spec fn oldest_visible_id(log: Seq<(MessageId, Message)>, cursor: nat) -> u64 {
    let start = window_start(cursor, log.len()) as int;
    if start < log.len() {
        match log[start].0.confirmed() {
            Some(id) => id,
            None => 0,
        }
    } else {
        0
    }
}

/// Whether a scroll toward the top that left the cursor at `cursor` asks for
/// older messages: the cursor is near the top, no request is under way and the
/// top of the history has not been reached.
pub open spec fn fetch_due(cursor: nat, loading: bool, reached_top: bool) -> bool {
    cursor < 2 && !loading && !reached_top
}

/// The log after fetched messages, given oldest first, were put in front of it.
/// Each of them stands before all that follow it; one whose id the log or a later
/// fetched message has is left out.
pub open spec fn prepended(log: Seq<(MessageId, Message)>, fetched: Seq<Message>) -> Seq<
    (MessageId, Message),
>
    decreases fetched.len(),
{
    if fetched.len() == 0 {
        log
    } else {
        let rest = prepended(log, fetched.drop_first());
        if holds_key(rest, fetched[0].id@) {
            rest
        } else {
            seq![(fetched[0].id, fetched[0])] + rest
        }
    }
}

/// Putting messages in front of a log keeps the log as its end, so that a cursor
/// within the log stays within it.
pub proof fn lemma_prepended_ends_with_log(log: Seq<(MessageId, Message)>, fetched: Seq<Message>)
    ensures
        prepended(log, fetched).len() >= log.len(),
        prepended(log, fetched).skip(prepended(log, fetched).len() - log.len()) == log,
    decreases fetched.len(),
{
    if fetched.len() == 0 {
        assert(log.skip(0) =~= log);
    } else {
        lemma_prepended_ends_with_log(log, fetched.drop_first());
        let rest = prepended(log, fetched.drop_first());
        let all = prepended(log, fetched);
        if !holds_key(rest, fetched[0].id@) {
            assert(all.skip(all.len() - log.len()) =~= rest.skip(rest.len() - log.len()));
        }
    }
}

/// A key is held by a sequence exactly if it is held by the sequence turned round.
proof fn lemma_reverse_holds(s: Seq<(MessageId, Message)>, k: MessageId)
    ensures
        holds_key(s.reverse(), k) == holds_key(s, k),
{
    let r = s.reverse();
    if holds_key(s, k) {
        let i = choose|i: int| 0 <= i < s.len() && (#[trigger] s[i]).0@ == k;
        assert(r[s.len() - 1 - i] == s[i]);
    }
    if holds_key(r, k) {
        let i = choose|i: int| 0 <= i < r.len() && (#[trigger] r[i]).0@ == k;
        assert(r[i] == s[s.len() - 1 - i]);
    }
}

/// A channel of a guild.
#[derive(Debug)]
pub struct Channel {
    pub name: String,
    pub is_category: bool,
    pub has_unread: bool,
    /// The log, oldest message first, keyed by message id.
    pub messages: OrderedCollection<MessageId, Message>,
    /// The cursor: the position in the log from which the window is derived.
    pub looking_at_message: usize,
    /// Whether a request for older messages is under way.
    pub loading_messages_history: bool,
    /// Whether the log starts with the first message of the channel.
    pub reached_top: bool,
}

/// What a channel is told.
#[derive(Debug)]
pub enum ChannelEvent {
    /// The view was scrolled.
    Scrolled(ScrollDirection),
    /// A request for older messages was answered with `messages`, oldest first.
    HistoryFetched { messages: Vec<Message>, reached_top: bool },
    /// A request for older messages failed.
    FetchFailed,
    /// The user asked for the newest messages.
    JumpedToBottom,
    /// The user selected the channel.
    Selected,
}

/// What is to be done after a channel took an event.
#[derive(Debug, Clone, Copy, PartialEq, Eq)]
pub enum ChannelAction {
    Nothing,
    /// Ask for the messages before the given one.
    Fetch(FetchRequest),
    /// Scroll the view to its bottom.
    FollowBottom,
}

impl Channel {
    /// The cursor is within the log.
    pub open spec fn wf(&self) -> bool {
        self.looking_at_message <= self.messages@.len()
    }

    /// Whether `other` differs from this channel in nothing but the cursor and
    /// the flag of a request under way.
    pub open spec fn same_log(&self, other: &Channel) -> bool {
        &&& self.name == other.name
        &&& self.is_category == other.is_category
        &&& self.has_unread == other.has_unread
        &&& self.messages@ == other.messages@
        &&& self.reached_top == other.reached_top
    }

    /// Whether the cursor is within a page of the newest message.
    pub open spec fn near_bottom(&self) -> bool {
        self.looking_at_message >= minus(self.messages@.len(), SHOWN_MSGS_LIMIT as nat)
    }

    /// The request that a scroll event starts, if any: a scroll toward the top
    /// that leaves the cursor near the top asks for the messages before the oldest
    /// visible one, unless a request is under way or the top has been reached.
    pub open spec fn scroll_request(&self, direction: ScrollDirection) -> Option<FetchRequest> {
        let cursor = cursor_after_scroll(
            self.looking_at_message as nat,
            self.messages@.len(),
            direction,
        );
        if direction == ScrollDirection::TowardTop && fetch_due(
            cursor,
            self.loading_messages_history,
            self.reached_top,
        ) {
            Some(FetchRequest { before_message: oldest_visible_id(self.messages@, cursor) })
        } else {
            None
        }
    }

    /// `after` is this channel after a scroll event.
    pub open spec fn scrolled(&self, direction: ScrollDirection, after: &Channel) -> bool {
        &&& after.same_log(self)
        &&& after.looking_at_message == cursor_after_scroll(
            self.looking_at_message as nat,
            self.messages@.len(),
            direction,
        )
        &&& after.loading_messages_history == (self.loading_messages_history
            || self.scroll_request(direction) is Some)
    }

    /// `after` is this channel after the answer to a request for older messages.
    /// The cursor stays where it was.
    pub open spec fn took_history(
        &self,
        messages: Seq<Message>,
        reached_top: bool,
        after: &Channel,
    ) -> bool {
        &&& after.name == self.name
        &&& after.is_category == self.is_category
        &&& after.has_unread == self.has_unread
        &&& after.messages@ == prepended(self.messages@, messages)
        &&& after.looking_at_message == self.looking_at_message
        &&& after.reached_top == reached_top
        &&& !after.loading_messages_history
    }

    /// `after` is this channel after a request for older messages failed.
    pub open spec fn dropped_fetch(&self, after: &Channel) -> bool {
        &&& after.same_log(self)
        &&& after.looking_at_message == self.looking_at_message
        &&& !after.loading_messages_history
    }

    /// `after` is this channel with the cursor at the newest message.
    pub open spec fn went_to_bottom(&self, after: &Channel) -> bool {
        &&& after.same_log(self)
        &&& after.loading_messages_history == self.loading_messages_history
        &&& after.looking_at_message == minus(self.messages@.len(), 1)
    }

    /// `after` is this channel after it was selected: a cursor within a page of
    /// the newest message went to that message, a cursor further back stayed.
    pub open spec fn was_selected(&self, after: &Channel) -> bool {
        &&& after.same_log(self)
        &&& after.loading_messages_history == self.loading_messages_history
        &&& after.looking_at_message == if self.near_bottom() {
            minus(self.messages@.len(), 1)
        } else {
            self.looking_at_message as nat
        }
    }

    /// `after` is this channel after it took `event`.
    pub open spec fn handled(&self, event: ChannelEvent, after: &Channel) -> bool {
        match event {
            ChannelEvent::Scrolled(direction) => self.scrolled(direction, after),
            ChannelEvent::HistoryFetched { messages, reached_top } => self.took_history(
                messages@,
                reached_top,
                after,
            ),
            ChannelEvent::FetchFailed => self.dropped_fetch(after),
            ChannelEvent::JumpedToBottom => self.went_to_bottom(after),
            ChannelEvent::Selected => self.was_selected(after),
        }
    }

    /// What is to be done after this channel took `event`.
    pub open spec fn action_for(&self, event: ChannelEvent) -> ChannelAction {
        match event {
            ChannelEvent::Scrolled(direction) => match self.scroll_request(direction) {
                Some(request) => ChannelAction::Fetch(request),
                None => ChannelAction::Nothing,
            },
            ChannelEvent::HistoryFetched { .. } => ChannelAction::Nothing,
            ChannelEvent::FetchFailed => ChannelAction::Nothing,
            ChannelEvent::JumpedToBottom => ChannelAction::FollowBottom,
            ChannelEvent::Selected => if self.near_bottom() {
                ChannelAction::FollowBottom
            } else {
                ChannelAction::Nothing
            },
        }
    }

    /// A channel with an empty log.
    pub fn new(name: String, is_category: bool) -> (channel: Channel)
        ensures
            channel.name == name,
            channel.is_category == is_category,
            !channel.has_unread,
            channel.messages@ == Seq::<(MessageId, Message)>::empty(),
            channel.looking_at_message == 0,
            !channel.loading_messages_history,
            !channel.reached_top,
            channel.wf(),
    {
        Channel {
            name,
            is_category,
            has_unread: false,
            messages: OrderedCollection::new(),
            looking_at_message: 0,
            loading_messages_history: false,
            reached_top: false,
        }
    }

    /// Whether a request for older messages is under way.
    pub fn pagination_state(&self) -> (state: PaginationState)
        ensures
            state == if self.loading_messages_history {
                PaginationState::FetchingOlder
            } else {
                PaginationState::Idle
            },
    {
        if self.loading_messages_history {
            PaginationState::FetchingOlder
        } else {
            PaginationState::Idle
        }
    }

    /// The messages of the window, oldest first.
    pub fn visible_messages(&self) -> (shown: Vec<&Message>)
        ensures
            shown@.len() == window_end(self.looking_at_message as nat, self.messages@.len())
                - window_start(self.looking_at_message as nat, self.messages@.len()),
            shown@.len() <= SHOWN_MSGS_LIMIT,
            forall|i: int|
                0 <= i < shown@.len() ==> *(#[trigger] shown@[i]) == self.messages@[window_start(
                    self.looking_at_message as nat,
                    self.messages@.len(),
                ) + i].1,
    {
        let (start, end) = visible_range(self.looking_at_message, self.messages.len());
        let mut shown: Vec<&Message> = Vec::new();
        let mut index: usize = start;
        while index < end
            invariant
                start <= index <= end <= self.messages@.len(),
                shown@.len() == index - start,
                forall|i: int|
                    0 <= i < shown@.len() ==> *(#[trigger] shown@[i]) == self.messages@[start + i].1,
            decreases end - index,
        {
            match self.messages.get_index(index) {
                Some((_, message)) => {
                    shown.push(message);
                },
                None => {},
            }
            index = index + 1;
        }
        shown
    }

    /// Whether the cursor is more than a page before the newest message, so that a
    /// way back to the bottom is worth showing.
    pub fn shows_scroll_to_bottom(&self) -> (shown: bool)
        ensures
            shown == !self.near_bottom(),
    {
        self.looking_at_message < self.messages.len().saturating_sub(SHOWN_MSGS_LIMIT)
    }

    /// Takes a scroll event. The cursor moves as `cursor_after_scroll` says. A
    /// scroll toward the top that leaves the cursor near the top starts a request
    /// for older messages, unless one is under way or the top has been reached.
    pub fn scroll(&mut self, direction: ScrollDirection) -> (request: Option<FetchRequest>)
        ensures
            old(self).scrolled(direction, final(self)),
            request == old(self).scroll_request(direction),
            final(self).wf(),
    {
        let message_count: usize = self.messages.len();
        self.looking_at_message = scroll_cursor(self.looking_at_message, message_count, direction);
        match direction {
            ScrollDirection::TowardTop => {
                if self.looking_at_message < 2 && !self.loading_messages_history
                    && !self.reached_top {
                    self.loading_messages_history = true;
                    let (start, _) = visible_range(self.looking_at_message, message_count);
                    let before_message: u64 = match self.messages.get_index(start) {
                        Some((id, _)) => match id.id() {
                            Some(confirmed) => confirmed,
                            None => 0,
                        },
                        None => 0,
                    };
                    Some(FetchRequest { before_message })
                } else {
                    None
                }
            },
            ScrollDirection::TowardBottom => None,
        }
    }

    /// Takes the answer to a request for older messages: `messages`, oldest
    /// first, go in front of the log, and no request is under way any more.
    pub fn fetch_succeeded(&mut self, messages: Vec<Message>, reached_top: bool)
        ensures
            old(self).took_history(messages@, reached_top, final(self)),
            old(self).wf() ==> final(self).wf(),
    {
        let ghost before = *self;
        let ghost log = self.messages@;
        let ghost fetched = messages@;
        let mut remaining = messages;
        self.messages.reverse();
        proof {
            assert(log.reverse().reverse() =~= log);
            assert(fetched.skip(fetched.len() as int) =~= Seq::<Message>::empty());
        }
        while remaining.len() > 0
            invariant
                remaining@ == fetched.take(remaining@.len() as int),
                remaining@.len() <= fetched.len(),
                self.looking_at_message == before.looking_at_message,
                self.name == before.name,
                self.is_category == before.is_category,
                self.has_unread == before.has_unread,
                self.messages@.reverse() == prepended(log, fetched.skip(remaining@.len() as int)),
            decreases remaining@.len(),
        {
            let ghost turned = self.messages@;
            let ghost k = remaining@.len() as int;
            let last = remaining.pop();
            match last {
                Some(message) => {
                    proof {
                        assert(message == fetched[k - 1]);
                        assert(fetched.skip(k - 1).drop_first() =~= fetched.skip(k));
                        lemma_reverse_holds(turned, message.id);
                        assert(remaining@ =~= fetched.take(k - 1));
                    }
                    let id = message.id;
                    if !self.messages.contains_key(&id) {
                        self.messages.insert(id, message);
                        proof {
                            assert(turned.push((id, message)).reverse() =~= seq![(id, message)]
                                + turned.reverse());
                        }
                    }
                },
                None => {},
            }
        }
        self.messages.reverse();
        proof {
            assert(fetched.skip(0) =~= fetched);
            lemma_prepended_ends_with_log(log, fetched);
        }
        self.reached_top = reached_top;
        self.loading_messages_history = false;
    }

    /// Takes the failure of a request for older messages: no request is under
    /// way any more, and nothing else changes.
    pub fn fetch_failed(&mut self)
        ensures
            old(self).dropped_fetch(final(self)),
            old(self).wf() ==> final(self).wf(),
    {
        self.loading_messages_history = false;
    }

    /// Puts the cursor at the newest message.
    pub fn scroll_to_bottom(&mut self)
        ensures
            old(self).went_to_bottom(final(self)),
            final(self).wf(),
    {
        self.looking_at_message = self.messages.len().saturating_sub(1);
    }

    /// Takes the selection of this channel: a cursor within a page of the newest
    /// message goes to that message, and the result says that the view should
    /// follow; a cursor further back stays.
    pub fn channel_selected(&mut self) -> (follow: bool)
        ensures
            old(self).was_selected(final(self)),
            follow == old(self).near_bottom(),
            final(self).wf(),
    {
        let message_count: usize = self.messages.len();
        if self.looking_at_message >= message_count.saturating_sub(SHOWN_MSGS_LIMIT) {
            self.looking_at_message = message_count.saturating_sub(1);
            true
        } else {
            false
        }
    }

    /// Takes `event` and says what is to be done.
    pub fn handle(&mut self, event: ChannelEvent) -> (action: ChannelAction)
        ensures
            old(self).handled(event, final(self)),
            action == old(self).action_for(event),
            old(self).wf() ==> final(self).wf(),
    {
        match event {
            ChannelEvent::Scrolled(direction) => match self.scroll(direction) {
                Some(request) => ChannelAction::Fetch(request),
                None => ChannelAction::Nothing,
            },
            ChannelEvent::HistoryFetched { messages, reached_top } => {
                self.fetch_succeeded(messages, reached_top);
                ChannelAction::Nothing
            },
            ChannelEvent::FetchFailed => {
                self.fetch_failed();
                ChannelAction::Nothing
            },
            ChannelEvent::JumpedToBottom => {
                self.scroll_to_bottom();
                ChannelAction::FollowBottom
            },
            ChannelEvent::Selected => {
                if self.channel_selected() {
                    ChannelAction::FollowBottom
                } else {
                    ChannelAction::Nothing
                }
            },
        }
    }

    /// Adds a message that has arrived to the end of the log. A message whose id
    /// the log has takes the place of the one that had it.
    pub fn push_message(&mut self, message: Message)
        ensures
            final(self).messages@ == inserted(old(self).messages@, message.id, message),
            final(self).looking_at_message == old(self).looking_at_message,
            final(self).loading_messages_history == old(self).loading_messages_history,
            final(self).reached_top == old(self).reached_top,
            final(self).name == old(self).name,
            final(self).is_category == old(self).is_category,
            final(self).has_unread == old(self).has_unread,
            old(self).wf() ==> final(self).wf(),
    {
        let id = message.id;
        proof {
            if holds_key(self.messages@, id@) {
                lemma_position(self.messages@, id@);
            }
        }
        self.messages.insert(id, message);
    }
}

/// One request at a time. While a request for older messages is under way, and
/// once the top of the history has been reached, no scroll starts a request.
pub proof fn lemma_one_request_at_a_time(channel: Channel, direction: ScrollDirection)
    requires
        channel.loading_messages_history || channel.reached_top,
    ensures
        channel.scroll_request(direction) is None,
{
}

/// A scroll event leaves the cursor of a channel within its log, wherever it was.
pub proof fn lemma_scrolled_is_well_formed(
    before: Channel,
    direction: ScrollDirection,
    after: Channel,
)
    requires
        before.scrolled(direction, &after),
    ensures
        after.wf(),
{
}

} // verus!
