use convosniffer::{
    AppState, Conversation, ConversationReply, ErrorKind, ManifestField, ParseError, StoreError,
    WebNotif, MAX_REPLIES,
};

fn blank(id: usize) -> ConversationReply {
    ConversationReply {
        id,
        style: String::new(),
        category: String::new(),
        paraphrase: String::new(),
        text: String::new(),
        queued: false,
    }
}

fn letters() -> Vec<String> {
    "abcdefghijklmnop".chars().map(|c| c.to_string()).collect()
}

fn replies_of(state: &AppState) -> Vec<ConversationReply> {
    state.convo.as_ref().expect("a conversation is under way").replies.to_vec()
}

#[test]
fn a_new_store_has_no_conversation_and_empty_keybinds() {
    let state = AppState::new();
    assert!(state.convo.is_none());
    assert_eq!(state.keybinds.len(), MAX_REPLIES);
    assert!(state.keybinds.iter().all(|k| k.is_empty()));
    assert_eq!(AppState::default(), state);
}

#[test]
fn start_creates_a_blank_conversation() {
    let mut state = AppState::new();
    assert_eq!(state.start_conversation(), WebNotif::Conversation { start: true });
    assert_eq!(state.convo, Some(Conversation::new()));
}

#[test]
fn start_resets_a_conversation_under_way() {
    let mut state = AppState::new();
    state.start_conversation();
    state.update_replies("1\n\n3\ncasual\ngreeting\nhi\nHello there").unwrap();
    state.queue_reply("3").unwrap();
    assert_eq!(state.start_conversation(), WebNotif::Conversation { start: true });
    assert_eq!(state.convo, Some(Conversation::new()));
}

#[test]
fn end_clears_the_conversation_whether_or_not_one_was_under_way() {
    let mut state = AppState::new();
    assert_eq!(state.end_conversation(), WebNotif::Conversation { start: false });
    assert!(state.convo.is_none());
    state.start_conversation();
    assert_eq!(state.end_conversation(), WebNotif::Conversation { start: false });
    assert!(state.convo.is_none());
}

#[test]
fn start_and_end_leave_the_keybinds_alone() {
    let mut state = AppState::new();
    state.update_keybinds("a;b;c;d;e;f;g;h;i;j;k;l;m;n;o;p").unwrap();
    state.start_conversation();
    assert_eq!(state.keybinds.to_vec(), letters());
    state.end_conversation();
    assert_eq!(state.keybinds.to_vec(), letters());
}

#[test]
fn end_to_end_start_then_replace_replies() {
    let mut state = AppState::new();
    let mut published = vec![state.start_conversation()];
    published.extend(state.update_replies("1\n\n3\ncasual\ngreeting\nhi\nHello there").unwrap());
    let replies = replies_of(&state);
    assert_eq!(replies.len(), 16);
    for slot in 0..16 {
        if slot == 3 {
            assert_eq!(
                replies[slot],
                ConversationReply {
                    id: 3,
                    style: "casual".to_string(),
                    category: "greeting".to_string(),
                    paraphrase: "hi".to_string(),
                    text: "Hello there".to_string(),
                    queued: false,
                }
            );
        } else {
            assert_eq!(replies[slot], blank(slot));
        }
    }
    assert_eq!(
        published,
        vec![WebNotif::Conversation { start: true }, WebNotif::UpdateReplies { replies }]
    );
}

#[test]
fn replace_replies_begins_a_conversation_where_none_is_under_way() {
    let mut state = AppState::new();
    let published = state.update_replies("1\n\n0\na\nb\nc\nd").unwrap();
    let replies = replies_of(&state);
    assert_eq!(replies[0].text, "d");
    assert_eq!(
        published,
        vec![WebNotif::Conversation { start: true }, WebNotif::UpdateReplies { replies }]
    );
}

#[test]
fn replace_replies_with_distinct_records_fills_exactly_their_slots() {
    let mut state = AppState::new();
    state.start_conversation();
    let source = "3\n\n12\ns12\nc12\np12\nt12\n\n0\ns0\nc0\np0\nt0\n\n7\ns7\nc7\np7\nt7\n";
    let published = state.update_replies(source).unwrap();
    let replies = replies_of(&state);
    for slot in 0..16 {
        if slot == 0 || slot == 7 || slot == 12 {
            assert_eq!(
                replies[slot],
                ConversationReply {
                    id: slot,
                    style: format!("s{}", slot),
                    category: format!("c{}", slot),
                    paraphrase: format!("p{}", slot),
                    text: format!("t{}", slot),
                    queued: false,
                }
            );
        } else {
            assert_eq!(replies[slot], blank(slot));
        }
    }
    assert_eq!(published, vec![WebNotif::UpdateReplies { replies }]);
}

#[test]
fn replace_replies_clears_what_was_there_before() {
    let mut state = AppState::new();
    state.update_replies("2\n\n1\na\nb\nc\nd\n\n2\ne\nf\ng\nh").unwrap();
    state.queue_reply("1").unwrap();
    state.update_replies("1\n\n2\ni\nj\nk\nl").unwrap();
    let replies = replies_of(&state);
    assert_eq!(replies[1], blank(1));
    assert_eq!(replies[2].text, "l");
    assert!(replies.iter().all(|reply| !reply.queued));
}

#[test]
fn replace_replies_on_an_invalid_manifest_changes_nothing() {
    let invalid = [
        ("", ParseError::Empty),
        ("many", ParseError::InvalidCount),
        ("16", ParseError::CountTooHigh { count: 16 }),
        ("1\n\n16\ns\nc\np\nt", ParseError::IndexTooHigh { index: 16, count: 1, reply: 0 }),
        ("1\n\n-1\ns\nc\np\nt", ParseError::InvalidIndex { reply: 0 }),
        ("1\nx\n3\ns\nc\np\nt", ParseError::InvalidSeparator { reply: 0 }),
        ("1\n\n3\ns\nc", ParseError::MissingLine { field: ManifestField::Paraphrase, reply: 0 }),
        (
            "2\n\n3\ns\nc\np\nt\n\n4\ns\nc\np",
            ParseError::MissingLine { field: ManifestField::Text, reply: 1 },
        ),
    ];
    for (source, cause) in invalid {
        let mut state = AppState::new();
        assert_eq!(state.update_replies(source), Err(StoreError::Manifest(cause)), "{:?}", source);
        assert_eq!(state, AppState::new(), "{:?}", source);

        state.update_keybinds("a;b;c;d;e;f;g;h;i;j;k;l;m;n;o;p").unwrap();
        state.update_replies("1\n\n5\ns\nc\np\nt").unwrap();
        state.queue_reply("5").unwrap();
        let before_replies = replies_of(&state);
        assert_eq!(state.update_replies(source), Err(StoreError::Manifest(cause)), "{:?}", source);
        assert_eq!(replies_of(&state), before_replies, "{:?}", source);
        assert_eq!(state.keybinds.to_vec(), letters(), "{:?}", source);
    }
}

#[test]
fn queue_reply_sets_one_flag_and_nothing_else() {
    let mut state = AppState::new();
    state.update_replies("2\n\n4\na\nb\nc\nd\n\n9\ne\nf\ng\nh").unwrap();
    let before = replies_of(&state);
    assert_eq!(state.queue_reply("4"), Ok(WebNotif::QueueReply { index: 4 }));
    let after = replies_of(&state);
    for slot in 0..16 {
        if slot == 4 {
            assert!(after[slot].queued);
            assert_eq!(after[slot].id, before[slot].id);
            assert_eq!(after[slot].style, before[slot].style);
            assert_eq!(after[slot].category, before[slot].category);
            assert_eq!(after[slot].paraphrase, before[slot].paraphrase);
            assert_eq!(after[slot].text, before[slot].text);
        } else {
            assert_eq!(after[slot], before[slot]);
        }
    }
}

#[test]
fn queue_reply_twice_is_the_same_as_once() {
    let mut state = AppState::new();
    state.start_conversation();
    assert_eq!(state.queue_reply("15"), Ok(WebNotif::QueueReply { index: 15 }));
    let once = replies_of(&state);
    assert_eq!(state.queue_reply("15"), Ok(WebNotif::QueueReply { index: 15 }));
    assert_eq!(replies_of(&state), once);
    assert!(once[15].queued);
}

#[test]
fn queue_reply_trims_its_input() {
    let mut state = AppState::new();
    state.start_conversation();
    assert_eq!(state.queue_reply("  7\r\n"), Ok(WebNotif::QueueReply { index: 7 }));
    assert_eq!(state.queue_reply("+0"), Ok(WebNotif::QueueReply { index: 0 }));
    assert_eq!(state.queue_reply("-0"), Ok(WebNotif::QueueReply { index: 0 }));
    let replies = replies_of(&state);
    assert!(replies[7].queued && replies[0].queued);
}

#[test]
fn queue_reply_without_a_conversation_is_a_state_error() {
    for index in 0..16 {
        let mut state = AppState::new();
        let outcome = state.queue_reply(&index.to_string());
        assert_eq!(outcome, Err(StoreError::NotStarted));
        assert_eq!(outcome.unwrap_err().kind(), ErrorKind::State);
        assert_eq!(state, AppState::new());
    }
}

#[test]
fn queue_reply_rejects_what_names_no_slot() {
    for with_conversation in [false, true] {
        let mut state = AppState::new();
        if with_conversation {
            state.start_conversation();
        }
        let before = state.convo.as_ref().map(|c| c.replies.to_vec());
        assert_eq!(state.queue_reply(""), Err(StoreError::InvalidIndex));
        assert_eq!(state.queue_reply("three"), Err(StoreError::InvalidIndex));
        assert_eq!(state.queue_reply("1 2"), Err(StoreError::InvalidIndex));
        assert_eq!(state.queue_reply("2147483648"), Err(StoreError::InvalidIndex));
        assert_eq!(state.queue_reply("16"), Err(StoreError::IndexOutOfBounds { index: 16 }));
        assert_eq!(state.queue_reply("-1"), Err(StoreError::IndexOutOfBounds { index: -1 }));
        assert_eq!(
            state.queue_reply("-2147483648"),
            Err(StoreError::IndexOutOfBounds { index: i32::MIN })
        );
        assert_eq!(
            state.queue_reply("2147483647"),
            Err(StoreError::IndexOutOfBounds { index: i32::MAX })
        );
        assert_eq!(state.convo.as_ref().map(|c| c.replies.to_vec()), before);
    }
}

#[test]
fn set_keybinds_takes_sixteen_tokens_in_order() {
    let mut state = AppState::new();
    let outcome = state.update_keybinds("a;b;c;d;e;f;g;h;i;j;k;l;m;n;o;p");
    assert_eq!(outcome, Ok(WebNotif::SetKeybinds { keybinds: letters() }));
    assert_eq!(state.keybinds.to_vec(), letters());
    assert_eq!(state.keybinds_snapshot(), letters());
}

#[test]
fn set_keybinds_rejects_three_tokens() {
    let mut state = AppState::new();
    state.update_keybinds("a;b;c;d;e;f;g;h;i;j;k;l;m;n;o;p").unwrap();
    assert_eq!(state.update_keybinds("a;b;c"), Err(StoreError::InvalidKeybindCount));
    assert_eq!(state.keybinds.to_vec(), letters());
}

#[test]
fn set_keybinds_counts_empty_tokens() {
    let mut state = AppState::new();
    let fifteen = ";".repeat(14);
    let sixteen = ";".repeat(15);
    let seventeen = ";".repeat(16);
    assert_eq!(state.update_keybinds(&fifteen), Err(StoreError::InvalidKeybindCount));
    assert_eq!(state.update_keybinds(&seventeen), Err(StoreError::InvalidKeybindCount));
    assert_eq!(state.update_keybinds(""), Err(StoreError::InvalidKeybindCount));
    state.update_keybinds("a;b;c;d;e;f;g;h;i;j;k;l;m;n;o;p").unwrap();
    assert_eq!(
        state.update_keybinds(&sixteen),
        Ok(WebNotif::SetKeybinds { keybinds: vec![String::new(); 16] })
    );
    assert!(state.keybinds.iter().all(|k| k.is_empty()));
}

#[test]
fn set_keybinds_keeps_tokens_as_they_stand() {
    let mut state = AppState::new();
    let source = " Q ;w\n;é;;4;5;6;7;8;9;10;11;12;13;14; last ";
    state.update_keybinds(source).unwrap();
    let want: Vec<String> = source.split(';').map(|s| s.to_string()).collect();
    assert_eq!(state.keybinds.to_vec(), want);
}

#[test]
fn set_keybinds_leaves_the_conversation_alone() {
    let mut state = AppState::new();
    state.update_replies("1\n\n5\ns\nc\np\nt").unwrap();
    let before = replies_of(&state);
    state.update_keybinds("a;b;c;d;e;f;g;h;i;j;k;l;m;n;o;p").unwrap();
    assert_eq!(replies_of(&state), before);
    assert!(state.update_keybinds("a;b").is_err());
    assert_eq!(replies_of(&state), before);
}

#[test]
fn reconcile_without_a_conversation_is_the_keybinds_alone() {
    let mut state = AppState::new();
    assert_eq!(state.reconcile(), vec![WebNotif::SetKeybinds { keybinds: vec![String::new(); 16] }]);
    state.update_keybinds("a;b;c;d;e;f;g;h;i;j;k;l;m;n;o;p").unwrap();
    state.start_conversation();
    state.end_conversation();
    assert_eq!(state.reconcile(), vec![WebNotif::SetKeybinds { keybinds: letters() }]);
}

#[test]
fn reconcile_with_a_conversation_is_keybinds_start_replies() {
    let mut state = AppState::new();
    state.update_keybinds("a;b;c;d;e;f;g;h;i;j;k;l;m;n;o;p").unwrap();
    state.update_replies("1\n\n3\ncasual\ngreeting\nhi\nHello there").unwrap();
    state.queue_reply("3").unwrap();
    let replies = replies_of(&state);
    assert!(replies[3].queued);
    assert_eq!(
        state.reconcile(),
        vec![
            WebNotif::SetKeybinds { keybinds: letters() },
            WebNotif::Conversation { start: true },
            WebNotif::UpdateReplies { replies },
        ]
    );
}

#[test]
fn a_notification_is_a_snapshot_of_its_own() {
    let mut state = AppState::new();
    let published = state.update_replies("1\n\n3\ncasual\ngreeting\nhi\nHello there").unwrap();
    state.queue_reply("3").unwrap();
    match &published[1] {
        WebNotif::UpdateReplies { replies } => assert!(!replies[3].queued),
        other => panic!("unexpected notification {:?}", other),
    }
    assert_eq!(published[1].clone(), published[1]);
}

#[test]
fn every_slot_keeps_its_number_through_all_operations() {
    let mut state = AppState::new();
    let check = |state: &AppState| {
        if let Some(convo) = &state.convo {
            for slot in 0..MAX_REPLIES {
                assert_eq!(convo.replies[slot].id, slot);
            }
        }
    };
    state.start_conversation();
    check(&state);
    state.update_replies("2\n\n9\na\nb\nc\nd\n\n9\ne\nf\ng\nh").unwrap();
    check(&state);
    state.queue_reply("2").unwrap();
    check(&state);
    assert!(state.update_replies("1\n\n77\na\nb\nc\nd").is_err());
    check(&state);
    state.update_keybinds("a;b;c;d;e;f;g;h;i;j;k;l;m;n;o;p").unwrap();
    check(&state);
}

#[test]
fn replies_snapshot_follows_the_conversation() {
    let mut state = AppState::new();
    assert_eq!(state.replies_snapshot(), None);
    state.update_replies("1\n\n3\ncasual\ngreeting\nhi\nHello there").unwrap();
    assert_eq!(state.replies_snapshot(), Some(replies_of(&state)));
    state.end_conversation();
    assert_eq!(state.replies_snapshot(), None);
}
