use chat_model::channel::{
    scroll_cursor, visible_range, Channel, ChannelAction, ChannelEvent, FetchRequest,
    PaginationState, ScrollDirection, SHOWN_MSGS_LIMIT,
};
use chat_model::message::{Content, Message, MessageId};

fn text(id: MessageId, body: &str) -> Message {
    Message {
        id,
        timestamp: 0,
        sender: 1,
        content: Content::Text(body.to_string()),
        overrides: None,
        being_edited: None,
    }
}

/// A channel whose log holds the confirmed messages `first .. first + count`.
fn channel_with(first: u64, count: u64) -> Channel {
    let mut channel = Channel::new("general".to_string(), false);
    for n in first..first + count {
        channel.push_message(text(MessageId::Ack(n), "m"));
    }
    channel
}

fn ids(channel: &Channel) -> Vec<MessageId> {
    let mut out = Vec::new();
    let mut i = 0;
    while let Some((k, _)) = channel.messages.get_index(i) {
        out.push(*k);
        i += 1;
    }
    out
}

#[test]
fn limit_is_thirty_two() {
    assert_eq!(SHOWN_MSGS_LIMIT, 32);
}

#[test]
fn window_is_the_page_that_starts_at_the_cursor() {
    assert_eq!(visible_range(0, 100), (0, 32));
    assert_eq!(visible_range(10, 100), (10, 42));
    assert_eq!(visible_range(68, 100), (68, 100));
}

#[test]
fn window_ends_with_the_log() {
    assert_eq!(visible_range(69, 100), (68, 100));
    assert_eq!(visible_range(99, 100), (68, 100));
    assert_eq!(visible_range(100, 100), (68, 100));
    assert_eq!(visible_range(49, 50), (18, 50));
}

#[test]
fn window_of_a_short_log_is_the_log() {
    assert_eq!(visible_range(0, 0), (0, 0));
    assert_eq!(visible_range(0, 5), (0, 5));
    assert_eq!(visible_range(4, 5), (0, 5));
    assert_eq!(visible_range(0, 32), (0, 32));
    assert_eq!(visible_range(1, 33), (1, 33));
}

#[test]
fn window_of_a_cursor_past_the_log_is_the_last_page() {
    assert_eq!(visible_range(500, 100), (68, 100));
    assert_eq!(visible_range(usize::MAX, 100), (68, 100));
    assert_eq!(visible_range(usize::MAX, usize::MAX), (usize::MAX - 32, usize::MAX));
}

#[test]
fn window_never_exceeds_the_limit() {
    for len in 0..80usize {
        for cursor in 0..90usize {
            let (start, end) = visible_range(cursor, len);
            assert!(start <= end);
            assert!(end <= len);
            assert!(end - start <= SHOWN_MSGS_LIMIT);
        }
    }
}

#[test]
fn cursor_stays_in_the_log_after_any_scroll() {
    for len in 0..80usize {
        for cursor in 0..90usize {
            assert!(scroll_cursor(cursor, len, ScrollDirection::TowardTop) <= len);
            assert!(scroll_cursor(cursor, len, ScrollDirection::TowardBottom) <= len);
        }
    }
}

#[test]
fn scroll_toward_top_goes_back_by_one() {
    assert_eq!(scroll_cursor(49, 50, ScrollDirection::TowardTop), 48);
    assert_eq!(scroll_cursor(1, 50, ScrollDirection::TowardTop), 0);
    assert_eq!(scroll_cursor(0, 50, ScrollDirection::TowardTop), 0);
}

#[test]
fn scroll_toward_top_from_the_end_goes_back_by_a_page_and_one() {
    assert_eq!(scroll_cursor(50, 50, ScrollDirection::TowardTop), 17);
    assert_eq!(scroll_cursor(100, 100, ScrollDirection::TowardTop), 67);
    assert_eq!(scroll_cursor(20, 20, ScrollDirection::TowardTop), 0);
    assert_eq!(scroll_cursor(0, 0, ScrollDirection::TowardTop), 0);
}

#[test]
fn scroll_toward_bottom_advances_by_one() {
    assert_eq!(scroll_cursor(0, 100, ScrollDirection::TowardBottom), 1);
    assert_eq!(scroll_cursor(67, 100, ScrollDirection::TowardBottom), 68);
    assert_eq!(scroll_cursor(68, 100, ScrollDirection::TowardBottom), 69);
    assert_eq!(scroll_cursor(0, 1, ScrollDirection::TowardBottom), 1);
    assert_eq!(scroll_cursor(0, 0, ScrollDirection::TowardBottom), 0);
}

#[test]
fn scroll_toward_bottom_within_a_page_of_the_newest_snaps_to_it() {
    assert_eq!(scroll_cursor(69, 100, ScrollDirection::TowardBottom), 99);
    assert_eq!(scroll_cursor(98, 100, ScrollDirection::TowardBottom), 99);
    assert_eq!(scroll_cursor(99, 100, ScrollDirection::TowardBottom), 99);
    assert_eq!(scroll_cursor(1, 10, ScrollDirection::TowardBottom), 9);
}

#[test]
fn scrolling_up_a_log_of_fifty_fetches_when_the_cursor_is_below_two() {
    let mut channel = channel_with(1000, 50);
    channel.scroll_to_bottom();
    assert_eq!(channel.looking_at_message, 49);
    assert_eq!(channel.scroll(ScrollDirection::TowardTop), None);
    assert_eq!(channel.looking_at_message, 48);
    for expected in (2..48).rev() {
        assert_eq!(channel.scroll(ScrollDirection::TowardTop), None);
        assert_eq!(channel.looking_at_message, expected);
        assert_eq!(channel.pagination_state(), PaginationState::Idle);
    }
    // The cursor comes to 1: the window is [1, 33), and the request names the
    // message at its start.
    let request = channel.scroll(ScrollDirection::TowardTop);
    assert_eq!(channel.looking_at_message, 1);
    assert_eq!(visible_range(1, 50), (1, 33));
    assert_eq!(request, Some(FetchRequest { before_message: 1001 }));
    assert_eq!(channel.pagination_state(), PaginationState::FetchingOlder);
    assert!(channel.loading_messages_history);
}

#[test]
fn no_second_request_while_one_is_under_way() {
    let mut channel = channel_with(1, 10);
    channel.looking_at_message = 2;
    assert!(channel.scroll(ScrollDirection::TowardTop).is_some());
    assert_eq!(channel.scroll(ScrollDirection::TowardTop), None);
    assert_eq!(channel.looking_at_message, 0);
    assert!(channel.loading_messages_history);
}

#[test]
fn no_request_once_the_top_is_reached() {
    let mut channel = channel_with(1, 10);
    channel.looking_at_message = 2;
    channel.reached_top = true;
    assert_eq!(channel.scroll(ScrollDirection::TowardTop), None);
    assert_eq!(channel.looking_at_message, 1);
    assert!(!channel.loading_messages_history);
}

#[test]
fn no_request_on_a_scroll_toward_the_bottom() {
    let mut channel = channel_with(1, 100);
    channel.looking_at_message = 0;
    assert_eq!(channel.scroll(ScrollDirection::TowardBottom), None);
    assert_eq!(channel.looking_at_message, 1);
    assert!(!channel.loading_messages_history);
}

#[test]
fn request_in_an_empty_channel_names_no_message() {
    let mut channel = Channel::new("empty".to_string(), false);
    assert_eq!(
        channel.scroll(ScrollDirection::TowardTop),
        Some(FetchRequest { before_message: 0 })
    );
    assert_eq!(channel.looking_at_message, 0);
}

#[test]
fn request_before_an_unconfirmed_message_names_no_message() {
    let mut channel = Channel::new("general".to_string(), false);
    channel.push_message(text(MessageId::Unack(5), "pending"));
    channel.push_message(text(MessageId::Ack(6), "confirmed"));
    channel.looking_at_message = 1;
    assert_eq!(
        channel.scroll(ScrollDirection::TowardTop),
        Some(FetchRequest { before_message: 0 })
    );
}

#[test]
fn fetched_messages_go_in_front_of_the_log() {
    let mut channel = channel_with(10, 3);
    channel.looking_at_message = 2;
    channel.loading_messages_history = true;
    channel.fetch_succeeded(
        vec![text(MessageId::Ack(7), "a"), text(MessageId::Ack(8), "b"), text(MessageId::Ack(9), "c")],
        true,
    );
    assert_eq!(
        ids(&channel),
        [7, 8, 9, 10, 11, 12].iter().map(|n| MessageId::Ack(*n)).collect::<Vec<_>>()
    );
    assert!(channel.reached_top);
    assert!(!channel.loading_messages_history);
    assert_eq!(channel.pagination_state(), PaginationState::Idle);
    assert_eq!(channel.looking_at_message, 2);
}

#[test]
fn fetched_messages_that_the_log_has_are_left_out() {
    let mut channel = channel_with(10, 3);
    channel.fetch_succeeded(
        vec![
            text(MessageId::Ack(8), "old"),
            text(MessageId::Ack(10), "again"),
            text(MessageId::Ack(9), "first"),
            text(MessageId::Ack(9), "second"),
        ],
        false,
    );
    assert_eq!(
        ids(&channel),
        [8, 9, 10, 11, 12].iter().map(|n| MessageId::Ack(*n)).collect::<Vec<_>>()
    );
    match &channel.messages.get(&MessageId::Ack(10)).unwrap().content {
        Content::Text(body) => assert_eq!(body, "m"),
        other => panic!("unexpected {:?}", other),
    }
    match &channel.messages.get(&MessageId::Ack(9)).unwrap().content {
        Content::Text(body) => assert_eq!(body, "second"),
        other => panic!("unexpected {:?}", other),
    }
    assert!(!channel.reached_top);
}

#[test]
fn empty_answer_only_ends_the_request() {
    let mut channel = channel_with(10, 3);
    channel.loading_messages_history = true;
    channel.fetch_succeeded(vec![], false);
    assert_eq!(ids(&channel).len(), 3);
    assert!(!channel.loading_messages_history);
}

#[test]
fn failed_fetch_ends_the_request_and_the_next_scroll_asks_again() {
    let mut channel = channel_with(1, 10);
    channel.looking_at_message = 1;
    assert!(channel.scroll(ScrollDirection::TowardTop).is_some());
    channel.fetch_failed();
    assert!(!channel.loading_messages_history);
    assert_eq!(channel.looking_at_message, 0);
    assert_eq!(ids(&channel).len(), 10);
    assert_eq!(
        channel.scroll(ScrollDirection::TowardTop),
        Some(FetchRequest { before_message: 1 })
    );
}

#[test]
fn scroll_to_bottom_puts_the_cursor_at_the_newest_message() {
    let mut channel = channel_with(1, 50);
    channel.looking_at_message = 3;
    channel.scroll_to_bottom();
    assert_eq!(channel.looking_at_message, 49);
    let mut empty = Channel::new("empty".to_string(), false);
    empty.scroll_to_bottom();
    assert_eq!(empty.looking_at_message, 0);
}

#[test]
fn selected_channel_near_the_bottom_follows_it() {
    let mut channel = channel_with(1, 50);
    channel.looking_at_message = 18;
    assert!(channel.channel_selected());
    assert_eq!(channel.looking_at_message, 49);
    let mut channel = channel_with(1, 50);
    channel.looking_at_message = 17;
    assert!(!channel.channel_selected());
    assert_eq!(channel.looking_at_message, 17);
}

#[test]
fn way_back_to_the_bottom_is_shown_more_than_a_page_away() {
    let mut channel = channel_with(1, 50);
    channel.looking_at_message = 17;
    assert!(channel.shows_scroll_to_bottom());
    channel.looking_at_message = 18;
    assert!(!channel.shows_scroll_to_bottom());
    assert!(!Channel::new("empty".to_string(), false).shows_scroll_to_bottom());
}

#[test]
fn visible_messages_are_the_window() {
    let mut channel = channel_with(100, 50);
    channel.looking_at_message = 49;
    let shown: Vec<MessageId> = channel.visible_messages().iter().map(|m| m.id).collect();
    assert_eq!(shown.len(), 32);
    assert_eq!(shown[0], MessageId::Ack(118));
    assert_eq!(shown[31], MessageId::Ack(149));
    channel.looking_at_message = 0;
    let shown: Vec<MessageId> = channel.visible_messages().iter().map(|m| m.id).collect();
    assert_eq!(shown.len(), 32);
    assert_eq!(shown[0], MessageId::Ack(100));
    assert_eq!(shown[31], MessageId::Ack(131));
    assert!(Channel::new("empty".to_string(), false).visible_messages().is_empty());
}

#[test]
fn pushed_message_goes_to_the_end() {
    let mut channel = channel_with(1, 2);
    channel.push_message(text(MessageId::Unack(1), "pending"));
    assert_eq!(ids(&channel), vec![MessageId::Ack(1), MessageId::Ack(2), MessageId::Unack(1)]);
    channel.push_message(text(MessageId::Ack(1), "edited"));
    assert_eq!(ids(&channel).len(), 3);
    match &channel.messages.get(&MessageId::Ack(1)).unwrap().content {
        Content::Text(body) => assert_eq!(body, "edited"),
        other => panic!("unexpected {:?}", other),
    }
}

#[test]
fn message_ids_tell_confirmed_from_pending() {
    assert!(MessageId::Ack(3).is_ack());
    assert!(!MessageId::Unack(3).is_ack());
    assert_eq!(MessageId::Ack(3).id(), Some(3));
    assert_eq!(MessageId::Unack(3).id(), None);
}

#[test]
fn events_lead_to_the_same_as_the_calls() {
    let mut channel = channel_with(1, 50);
    assert_eq!(channel.handle(ChannelEvent::JumpedToBottom), ChannelAction::FollowBottom);
    assert_eq!(channel.looking_at_message, 49);
    assert_eq!(
        channel.handle(ChannelEvent::Scrolled(ScrollDirection::TowardTop)),
        ChannelAction::Nothing
    );
    assert_eq!(channel.looking_at_message, 48);
    channel.looking_at_message = 1;
    assert_eq!(
        channel.handle(ChannelEvent::Scrolled(ScrollDirection::TowardTop)),
        ChannelAction::Fetch(FetchRequest { before_message: 1 })
    );
    assert_eq!(channel.handle(ChannelEvent::FetchFailed), ChannelAction::Nothing);
    assert!(!channel.loading_messages_history);
    assert_eq!(
        channel.handle(ChannelEvent::HistoryFetched {
            messages: vec![text(MessageId::Ack(0), "zero")],
            reached_top: true
        }),
        ChannelAction::Nothing
    );
    assert_eq!(ids(&channel).len(), 51);
    assert_eq!(channel.handle(ChannelEvent::Selected), ChannelAction::Nothing);
    assert_eq!(channel.looking_at_message, 0);
    channel.looking_at_message = 40;
    assert_eq!(channel.handle(ChannelEvent::Selected), ChannelAction::FollowBottom);
    assert_eq!(channel.looking_at_message, 50);
}
