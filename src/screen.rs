//! What the client window shows: which panel is visible and the values it
//! displays. The window toolkit only mirrors this state.
use crate::protocol::{Protocol, Status};
use vstd::prelude::*;

verus! {

broadcast use vstd::string::group_string_axioms;

/// Stake offered by default on the create panel.
pub const DEFAULT_BET: i32 = 10;

/// Round count offered by default on the create panel.
pub const DEFAULT_ROUNDS: i32 = 5;

/// The state of the client window.
pub struct Screen {
    pub menu_visible: bool,
    pub game_visible: bool,
    pub search_visible: bool,
    pub create_visible: bool,
    pub wait_visible: bool,
    pub end_game_visible: bool,
    pub status_game: String,
    pub number_bet: i32,
    pub number_round: i32,
    pub party_id: u32,
    pub player1_money: i64,
    pub total_rounds: u32,
    pub party_rounds: u32,
}

/// The window's panel switches.
pub struct Interface {}

impl Screen {
    /// The five panels that `reset_interface` hides are hidden.
    pub open spec fn panels_hidden(&self) -> bool {
        &&& !self.menu_visible
        &&& !self.game_visible
        &&& !self.search_visible
        &&& !self.create_visible
        &&& !self.wait_visible
    }

    /// `self` and `o` show the same values.
    pub open spec fn same_values(&self, o: &Screen) -> bool {
        &&& self.status_game@ == o.status_game@
        &&& self.number_bet == o.number_bet
        &&& self.number_round == o.number_round
        &&& self.party_id == o.party_id
        &&& self.player1_money == o.player1_money
        &&& self.total_rounds == o.total_rounds
        &&& self.party_rounds == o.party_rounds
    }

    /// The window as it opens: the menu, and nothing else.
    pub fn new() -> (r: Screen)
        ensures
            r.menu_visible,
            !r.game_visible && !r.search_visible && !r.create_visible && !r.wait_visible,
            !r.end_game_visible,
    {
        Screen {
            menu_visible: true,
            game_visible: false,
            search_visible: false,
            create_visible: false,
            wait_visible: false,
            end_game_visible: false,
            status_game: String::new(),
            number_bet: 0,
            number_round: 0,
            party_id: 0,
            player1_money: 0,
            total_rounds: 0,
            party_rounds: 0,
        }
    }
}

impl Interface {
    /// Puts the default stake and round count in the create panel's inputs.
    pub fn set_default_input(ui: &mut Screen)
        ensures
            final(ui).number_bet == DEFAULT_BET,
            final(ui).number_round == DEFAULT_ROUNDS,
            final(ui).menu_visible == old(ui).menu_visible,
            final(ui).game_visible == old(ui).game_visible,
            final(ui).search_visible == old(ui).search_visible,
            final(ui).create_visible == old(ui).create_visible,
            final(ui).wait_visible == old(ui).wait_visible,
            final(ui).end_game_visible == old(ui).end_game_visible,
    {
        ui.number_bet = DEFAULT_BET;
        ui.number_round = DEFAULT_ROUNDS;
    }

    /// Hides the menu, game, search, create and wait panels.
    pub fn reset_interface(ui: &mut Screen)
        ensures
            final(ui).panels_hidden(),
            final(ui).end_game_visible == old(ui).end_game_visible,
            final(ui).same_values(old(ui)),
    {
        ui.menu_visible = false;
        ui.game_visible = false;
        ui.search_visible = false;
        ui.create_visible = false;
        ui.wait_visible = false;
    }

    /// Shows the create panel with the default inputs.
    pub fn go_create_game_ui(ui: &mut Screen)
        ensures
            final(ui).create_visible,
            !final(ui).menu_visible && !final(ui).game_visible && !final(ui).search_visible
                && !final(ui).wait_visible,
            final(ui).end_game_visible == old(ui).end_game_visible,
            final(ui).number_bet == DEFAULT_BET,
            final(ui).number_round == DEFAULT_ROUNDS,
    {
        Interface::reset_interface(ui);
        Interface::set_default_input(ui);
        ui.create_visible = true;
    }

    /// Shows the end panel with `text`.
    pub fn go_end_game(ui: &mut Screen, text: &str)
        ensures
            final(ui).panels_hidden(),
            final(ui).end_game_visible,
            final(ui).status_game@ == text@,
    {
        Interface::reset_interface(ui);
        ui.end_game_visible = true;
        ui.status_game = text.to_string();
    }

    /// Shows the game panel with the party, balance and round numbers.
    pub fn go_in_game(ui: &mut Screen, party_id: u32, money: i64, round: u32, total_round: u32)
        ensures
            final(ui).game_visible,
            !final(ui).menu_visible && !final(ui).search_visible && !final(ui).create_visible
                && !final(ui).wait_visible,
            final(ui).end_game_visible == old(ui).end_game_visible,
            final(ui).party_id == party_id,
            final(ui).player1_money == money,
            final(ui).total_rounds == total_round,
            final(ui).party_rounds == round,
    {
        Interface::reset_interface(ui);
        ui.game_visible = true;
        ui.party_id = party_id;
        ui.player1_money = money;
        ui.total_rounds = total_round;
        ui.party_rounds = round;
    }

    /// Shows the waiting panel.
    pub fn go_waiting_player(ui: &mut Screen)
        ensures
            final(ui).wait_visible,
            !final(ui).menu_visible && !final(ui).game_visible && !final(ui).search_visible
                && !final(ui).create_visible,
            final(ui).end_game_visible == old(ui).end_game_visible,
            final(ui).same_values(old(ui)),
    {
        Interface::reset_interface(ui);
        ui.wait_visible = true;
    }

    /// Follows a message from the server: `Started` shows the game panel
    /// with the message's numbers; `Win`, `Lose` and `Equal` show the end
    /// panel with "Win", "Lose" or "Equal game"; any other status leaves the
    /// window as it is. Returns whether the window changed.
    pub fn on_message(ui: &mut Screen, msg: &Protocol) -> (changed: bool)
        ensures
            changed == (msg.party_status == Status::Started || msg.party_status == Status::Win
                || msg.party_status == Status::Lose || msg.party_status == Status::Equal),
            msg.party_status == Status::Started ==> {
                &&& final(ui).game_visible
                &&& !final(ui).menu_visible && !final(ui).search_visible
                &&& !final(ui).create_visible && !final(ui).wait_visible
                &&& final(ui).end_game_visible == old(ui).end_game_visible
                &&& final(ui).party_id == msg.party_id
                &&& final(ui).player1_money == msg.player.money
                &&& final(ui).party_rounds == msg.round
                &&& final(ui).total_rounds == msg.total_round
            },
            (msg.party_status == Status::Win || msg.party_status == Status::Lose
                || msg.party_status == Status::Equal) ==> final(ui).panels_hidden()
                && final(ui).end_game_visible,
            msg.party_status == Status::Win ==> final(ui).status_game@ == "Win"@,
            msg.party_status == Status::Lose ==> final(ui).status_game@ == "Lose"@,
            msg.party_status == Status::Equal ==> final(ui).status_game@ == "Equal game"@,
            !changed ==> {
                &&& final(ui).same_values(old(ui))
                &&& final(ui).menu_visible == old(ui).menu_visible
                &&& final(ui).game_visible == old(ui).game_visible
                &&& final(ui).search_visible == old(ui).search_visible
                &&& final(ui).create_visible == old(ui).create_visible
                &&& final(ui).wait_visible == old(ui).wait_visible
                &&& final(ui).end_game_visible == old(ui).end_game_visible
            },
    {
        match msg.party_status {
            Status::Started => {
                Interface::go_in_game(ui, msg.party_id, msg.player.money, msg.round, msg.total_round);
                true
            },
            Status::Win => {
                Interface::go_end_game(ui, "Win");
                true
            },
            Status::Lose => {
                Interface::go_end_game(ui, "Lose");
                true
            },
            Status::Equal => {
                Interface::go_end_game(ui, "Equal game");
                true
            },
            _ => false,
        }
    }
}

} // verus!
