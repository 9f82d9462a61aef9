//! The text of an instruction that the control bot relays to a worker:
//! `<prefix> <command>[ <argument>]`.

use vstd::prelude::*;

verus! {

/// The commands that a worker carries out.
#[derive(Clone, Copy, Debug, PartialEq, Eq, Structural)]
pub enum Order {
    Play,
    Join,
    Leave,
    Pause,
    Resume,
    Skip,
    Stop,
}

/// The word that names a command in an instruction.
pub open spec fn name_of(o: Order) -> Seq<char> {
    match o {
        Order::Play => seq!['p', 'l', 'a', 'y'],
        Order::Join => seq!['j', 'o', 'i', 'n'],
        Order::Leave => seq!['l', 'e', 'a', 'v', 'e'],
        Order::Pause => seq!['p', 'a', 'u', 's', 'e'],
        Order::Resume => seq!['r', 'e', 's', 'u', 'm', 'e'],
        Order::Skip => seq!['s', 'k', 'i', 'p'],
        Order::Stop => seq!['s', 't', 'o', 'p'],
    }
}

/// The instruction addressed to the worker with `prefix`.
pub open spec fn instruction(prefix: Seq<char>, name: Seq<char>, arg: Option<Seq<char>>) -> Seq<
    char,
> {
    match arg {
        Some(a) => prefix + seq![' '] + name + seq![' '] + a,
        None => prefix + seq![' '] + name,
    }
}

/// The word that names command `o`.
pub fn name_str(o: Order) -> (r: &'static str)
    ensures
        r@ == name_of(o),
{
    proof {
        reveal_strlit("play");
        reveal_strlit("join");
        reveal_strlit("leave");
        reveal_strlit("pause");
        reveal_strlit("resume");
        reveal_strlit("skip");
        reveal_strlit("stop");
    }
    match o {
        Order::Play => "play",
        Order::Join => "join",
        Order::Leave => "leave",
        Order::Pause => "pause",
        Order::Resume => "resume",
        Order::Skip => "skip",
        Order::Stop => "stop",
    }
}

/// Writes the instruction for command `o` to the worker with `prefix`.
pub fn instruction_text(prefix: &str, o: Order, arg: Option<&str>) -> (r: String)
    ensures
        arg is None ==> r@ == instruction(prefix@, name_of(o), None),
        arg is Some ==> r@ == instruction(prefix@, name_of(o), Some(arg->0@)),
{
    proof {
        reveal_strlit(" ");
    }
    let mut r = String::from_str(prefix);
    r.append(" ");
    r.append(name_str(o));
    match arg {
        Some(a) => {
            r.append(" ");
            r.append(a);
        },
        None => {},
    }
    r
}

} // verus!
