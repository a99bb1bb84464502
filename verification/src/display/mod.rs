//! The screens and how user interface events move between them.
use vstd::prelude::*;

use crate::text::Text;

pub mod chat;
pub mod menu;

use chat::{chat_transition, history_after, ChatScreen};
use menu::{menu_transition, spec_field_at, Field, MenuScreen};

verus! {

/// A change of screen asked for by the active screen.
#[derive(Clone, Copy, Debug, PartialEq, Eq, Structural)]
pub enum ScreenTransition {
    GoTo(ScreenId),
    Back,
}

/// Identifies a screen without owning its state.
#[derive(Clone, Copy, Debug, PartialEq, Eq, Structural)]
pub enum ScreenId {
    Chat,
    Menu,
}

/// Events for the display task.
pub enum UIEvent {
    // Navigation
    NavMenu,
    NavBack,
    NavUp,
    NavDown,
    NavSelect,

    // Chat data
    MessageReceived { id: u8, text: Text },
    MessageSent { id: u8, text: Text },
    MessageConfirmed { id: u8 },
    MessageDiscarded { id: u8 },
}

/// The screen shown.
#[derive(Clone, Copy, Debug, PartialEq, Eq, Structural)]
pub enum ActiveScreen {
    Chat,
    Menu,
}

/// The state of the display: which screen is active, and both screens'
/// state, kept across screen changes.
pub struct DisplayState {
    pub active: ActiveScreen,
    pub chat: ChatScreen,
    pub menu: MenuScreen,
}

/// The screen a transition leads to: `Back` from a top-level screen is chat.
pub open spec fn spec_target(t: ScreenTransition) -> ActiveScreen {
    match t {
        ScreenTransition::GoTo(ScreenId::Chat) => ActiveScreen::Chat,
        ScreenTransition::GoTo(ScreenId::Menu) => ActiveScreen::Menu,
        ScreenTransition::Back => ActiveScreen::Chat,
    }
}

impl DisplayState {
    pub open spec fn wf(&self) -> bool {
        self.chat.wf() && self.menu.wf()
    }

    /// Starts on the chat screen, with an empty history and `menu`.
    pub fn new(menu: MenuScreen) -> (r: Self)
        requires
            menu.wf(),
        ensures
            r.wf(),
            r.active == ActiveScreen::Chat,
            r.chat@ == Seq::<chat::EntryView>::empty(),
            r.menu == menu,
    {
        Self { active: ActiveScreen::Chat, chat: ChatScreen::new(), menu }
    }

    /// Passes `event` to the active screen and follows the transition it asks
    /// for. Returns whether the menu asked for its draft to be saved.
    pub fn handle(&mut self, event: UIEvent) -> (commit: bool)
        requires
            old(self).wf(),
            (old(self).active == ActiveScreen::Menu && event is NavSelect
                && spec_field_at(old(self).menu.cursor() as int) == Field::TxPower)
                ==> old(self).menu.tx_dbm() < i32::MAX,
        ensures
            final(self).wf(),
            old(self).active == ActiveScreen::Chat ==> {
                &&& final(self).chat@ == history_after(old(self).chat@, event)
                &&& final(self).menu == old(self).menu
                &&& !commit
                &&& final(self).active == (match chat_transition(event) {
                    Some(t) => spec_target(t),
                    None => ActiveScreen::Chat,
                })
            },
            old(self).active == ActiveScreen::Menu ==> {
                &&& old(self).menu.after_event(event, final(self).menu)
                &&& final(self).chat == old(self).chat
                &&& commit == (event is NavMenu)
                &&& final(self).active == (match menu_transition(event) {
                    Some(t) => spec_target(t),
                    None => ActiveScreen::Menu,
                })
            },
    {
        let (transition, commit) = match self.active {
            ActiveScreen::Chat => (self.chat.on_event(&event), false),
            ActiveScreen::Menu => {
                let response = self.menu.on_event(&event);
                (response.transition, response.commit)
            },
        };
        if let Some(t) = transition {
            self.apply(t);
        }
        commit
    }

    pub fn apply(&mut self, t: ScreenTransition)
        ensures
            final(self).active == spec_target(t),
            final(self).chat == old(self).chat,
            final(self).menu == old(self).menu,
    {
        match t {
            ScreenTransition::GoTo(id) => {
                self.active = match id {
                    ScreenId::Chat => ActiveScreen::Chat,
                    ScreenId::Menu => ActiveScreen::Menu,
                };
            },
            // Back from top-level defaults to Chat.
            ScreenTransition::Back => self.active = ActiveScreen::Chat,
        }
    }
}

} // verus!
