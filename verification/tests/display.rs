use lora_chat::display::chat::{ChatEntry, ChatScreen, DeliveryStatus};
use lora_chat::display::menu::{
    bw_label, cr_label, dbm_label, sf_label, MenuScreen,
};
use lora_chat::display::{ActiveScreen, DisplayState, ScreenId, ScreenTransition, UIEvent};
use lora_chat::settings::{Bandwidth, CodingRate, RadioSettings, SpreadingFactor};

fn text(s: &str) -> heapless::String<124> {
    heapless::String::try_from(s).unwrap()
}

fn line(chat: &ChatScreen, i: usize) -> String {
    chat.entry(i).line().as_str().to_string()
}

#[test]
fn chat_keeps_last_five() {
    let mut chat = ChatScreen::new();
    for i in 0..7u8 {
        chat.push_incoming(i, text(&format!("m{}", i)));
    }
    assert_eq!(chat.len(), 5);
    assert_eq!(chat.entry(0).id(), 2);
    assert_eq!(line(&chat, 4), "< m6");
}

#[test]
fn chat_status_updates_outgoing_only() {
    let mut chat = ChatScreen::new();
    chat.push_incoming(1, text("in"));
    chat.push_outgoing(2, text("out"));
    assert_eq!(line(&chat, 1), "> out ~");
    chat.update_status(2, DeliveryStatus::Confirmed);
    assert_eq!(line(&chat, 1), "> out +");
    chat.update_status(1, DeliveryStatus::Failed);
    assert_eq!(line(&chat, 0), "< in");
    chat.update_status(2, DeliveryStatus::Failed);
    assert_eq!(line(&chat, 1), "> out x");
    chat.update_status(77, DeliveryStatus::Confirmed);
    assert_eq!(line(&chat, 1), "> out x");
    assert!(matches!(chat.entry(1), ChatEntry::Outgoing { status: DeliveryStatus::Failed, .. }));
}

#[test]
fn chat_events() {
    let mut chat = ChatScreen::new();
    assert_eq!(chat.on_event(&UIEvent::NavMenu), Some(ScreenTransition::GoTo(ScreenId::Menu)));
    assert_eq!(chat.on_event(&UIEvent::MessageSent { id: 4, text: text("yo") }), None);
    assert_eq!(chat.on_event(&UIEvent::MessageDiscarded { id: 4 }), None);
    assert_eq!(line(&chat, 0), "> yo x");
    assert_eq!(chat.on_event(&UIEvent::NavUp), None);
    assert_eq!(chat.len(), 1);
}

#[test]
fn labels() {
    assert_eq!(&sf_label(SpreadingFactor::_7), b"SF7         ");
    assert_eq!(&sf_label(SpreadingFactor::_12), b"SF12        ");
    assert_eq!(&bw_label(Bandwidth::_31KHz), b"31.25kHz    ");
    assert_eq!(&bw_label(Bandwidth::_125KHz), b"125kHz      ");
    assert_eq!(&cr_label(CodingRate::_4_7), b"4/7         ");
    assert_eq!(&dbm_label(22), b"22dBm       ");
    assert_eq!(&dbm_label(2), b"2dBm        ");
    assert_eq!(&dbm_label(0), b"0dBm        ");
    assert_eq!(&dbm_label(-9), b"-9dBm       ");
    assert_eq!(&dbm_label(-140), b"-140dBm     ");
    assert_eq!(&dbm_label(105), b"105dBm      ");
}

#[test]
fn menu_edits_and_commits() {
    let mut menu = MenuScreen::new(None);
    assert_eq!(menu.row(0).as_str(), ">SF : SF12        ");
    assert_eq!(menu.row(1).as_str(), " dBm: 22dBm       ");

    // select steps the spreading factor, wrapping from 12 to 5
    assert_eq!(menu.on_event(&UIEvent::NavSelect).transition, None);
    assert_eq!(menu.row(0).as_str(), ">SF : SF5         ");

    // move down to the power, which stays capped at 22
    menu.on_event(&UIEvent::NavDown);
    menu.on_event(&UIEvent::NavSelect);
    assert_eq!(menu.row(1).as_str(), ">dBm: 22dBm       ");

    // to the bandwidth and coding rate
    menu.on_event(&UIEvent::NavDown);
    menu.on_event(&UIEvent::NavSelect);
    assert_eq!(menu.row(2).as_str(), ">BW : 250kHz      ");
    menu.on_event(&UIEvent::NavDown);
    menu.on_event(&UIEvent::NavDown);
    menu.on_event(&UIEvent::NavSelect);
    assert_eq!(menu.row(3).as_str(), ">CR : 4/6         ");

    let back = menu.on_event(&UIEvent::NavBack);
    assert_eq!(back.transition, Some(ScreenTransition::Back));
    assert!(!back.commit);

    let save = menu.on_event(&UIEvent::NavMenu);
    assert_eq!(save.transition, Some(ScreenTransition::Back));
    assert!(save.commit);

    let mut settings = RadioSettings::default();
    settings.frequency_hz = 915_000_000;
    menu.commit(&mut settings);
    assert_eq!(settings.spreading_factor, SpreadingFactor::_5);
    assert_eq!(settings.bandwidth, Bandwidth::_250KHz);
    assert_eq!(settings.coding_rate, CodingRate::_4_6);
    assert_eq!(settings.tx_power_dbm, 22);
    assert_eq!(settings.frequency_hz, 915_000_000);
}

#[test]
fn menu_power_decrement_floor() {
    let mut settings = RadioSettings::default();
    settings.tx_power_dbm = 3;
    let mut menu = MenuScreen::new(Some(settings));
    menu.on_event(&UIEvent::NavDown);
    menu._decrement();
    assert_eq!(menu.row(1).as_str(), ">dBm: 2dBm        ");
    menu._decrement();
    assert_eq!(menu.row(1).as_str(), ">dBm: 2dBm        ");
    // up from the first row stays on it
    menu.on_event(&UIEvent::NavUp);
    menu.on_event(&UIEvent::NavUp);
    assert_eq!(menu.row(0).as_str(), ">SF : SF12        ");
}

#[test]
fn display_switches_screens() {
    let mut d = DisplayState::new(MenuScreen::new(None));
    assert_eq!(d.active, ActiveScreen::Chat);
    assert!(!d.handle(UIEvent::MessageReceived { id: 1, text: text("a") }));
    assert_eq!(d.chat.len(), 1);
    assert!(!d.handle(UIEvent::NavMenu));
    assert_eq!(d.active, ActiveScreen::Menu);
    // chat data while the menu is shown does not reach the chat screen
    assert!(!d.handle(UIEvent::MessageReceived { id: 2, text: text("b") }));
    assert_eq!(d.chat.len(), 1);
    assert!(d.handle(UIEvent::NavMenu));
    assert_eq!(d.active, ActiveScreen::Chat);
    d.apply(ScreenTransition::GoTo(ScreenId::Menu));
    assert_eq!(d.active, ActiveScreen::Menu);
    d.apply(ScreenTransition::Back);
    assert_eq!(d.active, ActiveScreen::Chat);
}
