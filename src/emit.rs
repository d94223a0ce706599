use vstd::prelude::*;
use crate::target::{pane_address, pane_target, window_address, window_target};

verus! {

/// `new-session -d -s <session>`: creates the session, detached.
pub open spec fn new_session_argv(session: Seq<char>) -> Seq<Seq<char>> {
    seq!["new-session"@, "-d"@, "-s"@, session]
}

/// `new-window -t <session>:<index> -n <name>`: creates the window at `index`.
pub open spec fn new_window_argv(session: Seq<char>, index: nat, name: Seq<char>) -> Seq<Seq<char>> {
    seq!["new-window"@, "-t"@, window_address(session, index), "-n"@, name]
}

/// `send-keys -t <session>:<index>.0 <command> Enter`: types `command` into
/// the initial pane of the window at `index` and submits it.
pub open spec fn send_keys_argv(session: Seq<char>, index: nat, command: Seq<char>) -> Seq<Seq<char>> {
    seq!["send-keys"@, "-t"@, pane_address(session, index), command, "Enter"@]
}

/// `-u attach-session -t <session>`: attaches the terminal to the session.
pub open spec fn attach_argv(session: Seq<char>) -> Seq<Seq<char>> {
    seq!["-u"@, "attach-session"@, "-t"@, session]
}

/// The argv that creates the session `session`, detached.
pub fn new_session_args(session: &String) -> (r: Vec<String>)
    ensures
        r.deep_view() == new_session_argv(session@),
{
    let mut r: Vec<String> = Vec::new();
    r.push(String::from_str("new-session"));
    r.push(String::from_str("-d"));
    r.push(String::from_str("-s"));
    r.push(session.clone());
    assert(r.deep_view() =~= new_session_argv(session@));
    r
}

/// The argv that creates the window at position `index` of `session`.
pub fn new_window_args(session: &String, index: usize, name: &String) -> (r: Vec<String>)
    ensures
        r.deep_view() == new_window_argv(session@, index as nat, name@),
{
    let mut r: Vec<String> = Vec::new();
    r.push(String::from_str("new-window"));
    r.push(String::from_str("-t"));
    r.push(window_target(session, index));
    r.push(String::from_str("-n"));
    r.push(name.clone());
    assert(r.deep_view() =~= new_window_argv(session@, index as nat, name@));
    r
}

/// The argv that types `command` into the initial pane of the window at
/// position `index` of `session`, then presses Enter.
pub fn send_keys_args(session: &String, index: usize, command: &String) -> (r: Vec<String>)
    ensures
        r.deep_view() == send_keys_argv(session@, index as nat, command@),
{
    let mut r: Vec<String> = Vec::new();
    r.push(String::from_str("send-keys"));
    r.push(String::from_str("-t"));
    r.push(pane_target(session, index));
    r.push(command.clone());
    r.push(String::from_str("Enter"));
    assert(r.deep_view() =~= send_keys_argv(session@, index as nat, command@));
    r
}

/// The argv that attaches the invoking terminal to `session`.
pub fn attach_args(session: &String) -> (r: Vec<String>)
    ensures
        r.deep_view() == attach_argv(session@),
{
    let mut r: Vec<String> = Vec::new();
    r.push(String::from_str("-u"));
    r.push(String::from_str("attach-session"));
    r.push(String::from_str("-t"));
    r.push(session.clone());
    assert(r.deep_view() =~= attach_argv(session@));
    r
}

/// A send-keys argv ends with the command text followed by the Enter token,
/// whatever the session, the index and the command.
pub proof fn lemma_send_keys_ends_with_enter(session: Seq<char>, index: nat, command: Seq<char>)
    ensures
        ({
            let a = send_keys_argv(session, index, command);
            &&& a.len() >= 2
            &&& a[a.len() - 2] == command
            &&& a[a.len() - 1] == "Enter"@
        }),
{
}

/// The window and pane targets name the session and the window's index; the
/// window's name plays no part in them.
pub proof fn lemma_targets_use_index(session: Seq<char>, index: nat, name: Seq<char>, command: Seq<char>)
    ensures
        new_window_argv(session, index, name)[2] == session + ":"@ + crate::target::decimal(index),
        send_keys_argv(session, index, command)[2] == session + ":"@ + crate::target::decimal(index) + ".0"@,
{
}

} // verus!
