use vstd::prelude::*;

verus! {

/// The text of a desktop entry that starts the client on a game.
pub open spec fn desktop_entry(game_name: Seq<char>, game_name_id: Seq<char>) -> Seq<char> {
    "[Desktop Entry]\nName="@ + game_name + "\nComment=Play this game on drops\nExec=drops-client "@
        + game_name_id + "\nTerminal=false\nType=Application\nCategories=Game;"@
}

/// The desktop entry for a game, which starts the client with the game's
/// name-id as its argument.
pub fn desktop_entry_text(game_name: &str, game_name_id: &str) -> (r: String)
    ensures
        r@ == desktop_entry(game_name@, game_name_id@),
{
    let mut s = String::from_str("[Desktop Entry]\nName=");
    s.append(game_name);
    s.append("\nComment=Play this game on drops\nExec=drops-client ");
    s.append(game_name_id);
    s.append("\nTerminal=false\nType=Application\nCategories=Game;");
    s
}

} // verus!
