//! The event stream: typed, ordered messages describing what happened.
use vstd::prelude::*;

verus! {

/// What an event reports.
#[derive(Clone, Copy, Debug, PartialEq, Eq, Structural)]
pub enum MessageType {
    RoundStart,
    PlayerAction,
    EnemyAction,
    Upgrade,
    SpecialMove,
    Damage,
    Defense,
    CombatStart,
    CombatEnd,
}

/// One message of the event stream. `delay_ms` is a pacing hint for a
/// display; the engine never waits on it.
#[derive(Debug)]
pub struct CombatMessageEvent {
    pub message: String,
    pub message_type: MessageType,
    pub delay_ms: u64,
}

pub ghost struct EventView {
    pub kind: MessageType,
    pub text: Seq<char>,
    pub delay_ms: u64,
}

impl View for CombatMessageEvent {
    type V = EventView;

    open spec fn view(&self) -> EventView {
        EventView { kind: self.message_type, text: self.message@, delay_ms: self.delay_ms }
    }
}

impl CombatMessageEvent {
    pub fn new(message: String, message_type: MessageType, delay_ms: u64) -> (r: CombatMessageEvent)
        ensures
            r@ == (EventView { kind: message_type, text: message@, delay_ms }),
    {
        CombatMessageEvent { message, message_type, delay_ms }
    }

    pub fn copy(&self) -> (r: CombatMessageEvent)
        ensures
            r@ == self@,
    {
        CombatMessageEvent {
            message: self.message.clone(),
            message_type: self.message_type,
            delay_ms: self.delay_ms,
        }
    }
}

/// The text of a decimal digit.
pub open spec fn digit_text(d: nat) -> Seq<char> {
    if d == 0 {
        "0"@
    } else if d == 1 {
        "1"@
    } else if d == 2 {
        "2"@
    } else if d == 3 {
        "3"@
    } else if d == 4 {
        "4"@
    } else if d == 5 {
        "5"@
    } else if d == 6 {
        "6"@
    } else if d == 7 {
        "7"@
    } else if d == 8 {
        "8"@
    } else {
        "9"@
    }
}

/// `n` written in decimal, without leading zeros.
pub open spec fn decimal(n: nat) -> Seq<char>
    decreases n,
{
    if n < 10 {
        digit_text(n)
    } else {
        decimal(n / 10) + digit_text(n % 10)
    }
}

fn digit_str(d: u64) -> (r: &'static str)
    requires
        d < 10,
    ensures
        r@ == digit_text(d as nat),
{
    if d == 0 {
        "0"
    } else if d == 1 {
        "1"
    } else if d == 2 {
        "2"
    } else if d == 3 {
        "3"
    } else if d == 4 {
        "4"
    } else if d == 5 {
        "5"
    } else if d == 6 {
        "6"
    } else if d == 7 {
        "7"
    } else if d == 8 {
        "8"
    } else {
        "9"
    }
}

/// `n` in decimal.
pub fn decimal_text(n: u64) -> (r: String)
    ensures
        r@ == decimal(n as nat),
    decreases n,
{
    if n < 10 {
        String::from_str(digit_str(n))
    } else {
        let mut s = decimal_text(n / 10);
        s.append(digit_str(n % 10));
        s
    }
}

/// `"<name> startet den Angriff!"`
pub open spec fn announce_text(name: Seq<char>) -> Seq<char> {
    name + " startet den Angriff!"@
}

/// `"<name> scheiterte anzugreifen..."`
pub open spec fn miss_text(name: Seq<char>) -> Seq<char> {
    name + " scheiterte anzugreifen..."@
}

/// `"<name> parriert erfolgreich!"`
pub open spec fn parry_text(name: Seq<char>) -> Seq<char> {
    name + " parriert erfolgreich!"@
}

/// `"<name> nimmt <amount> Schaden!"`
pub open spec fn damage_text(name: Seq<char>, amount: nat) -> Seq<char> {
    name + " nimmt "@ + decimal(amount) + " Schaden!"@
}

/// `"Runde <round> beginnt!"`
pub open spec fn round_text(round: nat) -> Seq<char> {
    "Runde "@ + decimal(round) + " beginnt!"@
}

pub open spec fn start_text() -> Seq<char> {
    "Der Kampf beginnt!"@
}

pub open spec fn end_text(player_won: bool) -> Seq<char> {
    if player_won {
        "Du hast alle Gegner besiegt!"@
    } else {
        "Du wurdest besiegt..."@
    }
}

fn suffixed(name: &String, suffix: &str) -> (r: String)
    ensures
        r@ == name@ + suffix@,
{
    let mut s = name.clone();
    s.append(suffix);
    s
}

pub fn announce_message(name: &String) -> (r: String)
    ensures
        r@ == announce_text(name@),
{
    suffixed(name, " startet den Angriff!")
}

pub fn miss_message(name: &String) -> (r: String)
    ensures
        r@ == miss_text(name@),
{
    suffixed(name, " scheiterte anzugreifen...")
}

pub fn parry_message(name: &String) -> (r: String)
    ensures
        r@ == parry_text(name@),
{
    suffixed(name, " parriert erfolgreich!")
}

pub fn damage_message(name: &String, amount: u64) -> (r: String)
    ensures
        r@ == damage_text(name@, amount as nat),
{
    let mut s = suffixed(name, " nimmt ");
    let n = decimal_text(amount);
    s.append(n.as_str());
    s.append(" Schaden!");
    s
}

pub fn round_message(round: u32) -> (r: String)
    ensures
        r@ == round_text(round as nat),
{
    let mut s = String::from_str("Runde ");
    let n = decimal_text(round as u64);
    s.append(n.as_str());
    s.append(" beginnt!");
    s
}

pub fn start_message() -> (r: String)
    ensures
        r@ == start_text(),
{
    String::from_str("Der Kampf beginnt!")
}

pub fn end_message(player_won: bool) -> (r: String)
    ensures
        r@ == end_text(player_won),
{
    if player_won {
        String::from_str("Du hast alle Gegner besiegt!")
    } else {
        String::from_str("Du wurdest besiegt...")
    }
}

} // verus!
