//! The worker's side of the relay: reading an instruction addressed to it.

use vstd::prelude::*;
use crate::models::Id;
use crate::relay::{instruction, name_of, name_str, Order};
use crate::text::{
    decimal, has_prefix, is_digit, is_space, is_u64_numeral, join_words, joined,
    lemma_decimal_round_trip, numeral_value, parse_decimal, same_text, split_words, starts_with,
    views, words, words_from, flush,
};

verus! {

/// What a worker is asked to play: a direct locator or a search query.
pub enum MusicOrder {
    Url(String),
    Query(String),
}

/// The secure web scheme prefix.
pub open spec fn https_scheme() -> Seq<char> {
    seq!['h', 't', 't', 'p', 's', ':', '/', '/']
}

/// The plain web scheme prefix.
pub open spec fn http_scheme() -> Seq<char> {
    seq!['h', 't', 't', 'p', ':', '/', '/']
}

/// Whether a play argument is a direct locator rather than a query: it
/// starts with a web URL scheme.
pub open spec fn is_locator(s: Seq<char>) -> bool {
    has_prefix(s, https_scheme()) || has_prefix(s, http_scheme())
}

impl MusicOrder {
    /// The text of the order.
    pub open spec fn text(&self) -> Seq<char> {
        match self {
            MusicOrder::Url(s) => s@,
            MusicOrder::Query(s) => s@,
        }
    }

    /// Classifies a play argument: a locator when it starts with a web URL
    /// scheme, a search query otherwise.
    pub fn from(value: String) -> (r: MusicOrder)
        ensures
            r.text() == value@,
            r is Url <==> is_locator(value@),
    {
        proof {
            reveal_strlit("https://");
            reveal_strlit("http://");
            assert("https://"@ =~= https_scheme());
            assert("http://"@ =~= http_scheme());
        }
        if starts_with(value.as_str(), "https://") || starts_with(value.as_str(), "http://") {
            MusicOrder::Url(value)
        } else {
            MusicOrder::Query(value)
        }
    }

    /// The text of the order.
    pub fn as_str(&self) -> (r: &str)
        ensures
            r@ == self.text(),
    {
        match self {
            MusicOrder::Url(s) => s.as_str(),
            MusicOrder::Query(s) => s.as_str(),
        }
    }
}

/// A worker command as the instruction states it.
pub enum Instr {
    Play(Seq<char>),
    Join(u64),
    Leave,
    Pause,
    Resume,
    Skip,
    Stop,
}

/// A command that a worker carries out.
pub enum WorkerCommand {
    Play(MusicOrder),
    Join(Id),
    Leave,
    Pause,
    Resume,
    Skip,
    Stop,
}

impl View for WorkerCommand {
    type V = Instr;

    open spec fn view(&self) -> Instr {
        match self {
            WorkerCommand::Play(o) => Instr::Play(o.text()),
            WorkerCommand::Join(id) => Instr::Join(id.0),
            WorkerCommand::Leave => Instr::Leave,
            WorkerCommand::Pause => Instr::Pause,
            WorkerCommand::Resume => Instr::Resume,
            WorkerCommand::Skip => Instr::Skip,
            WorkerCommand::Stop => Instr::Stop,
        }
    }
}

/// The command that a list of words states, if any: the first word names
/// the command. `play` takes the remaining words, joined by single spaces;
/// `join` takes the next word as a channel id; the other commands
/// disregard further words.
pub open spec fn command_of(ws: Seq<Seq<char>>) -> Option<Instr> {
    if ws.len() == 0 {
        None
    } else {
        let name = ws[0];
        let args = ws.skip(1);
        if name == name_of(Order::Play) {
            if args.len() > 0 {
                Some(Instr::Play(joined(args)))
            } else {
                None
            }
        } else if name == name_of(Order::Join) {
            if args.len() > 0 && is_u64_numeral(args[0]) {
                Some(Instr::Join(numeral_value(args[0]) as u64))
            } else {
                None
            }
        } else if name == name_of(Order::Leave) {
            Some(Instr::Leave)
        } else if name == name_of(Order::Pause) {
            Some(Instr::Pause)
        } else if name == name_of(Order::Resume) {
            Some(Instr::Resume)
        } else if name == name_of(Order::Skip) {
            Some(Instr::Skip)
        } else if name == name_of(Order::Stop) {
            Some(Instr::Stop)
        } else {
            None
        }
    }
}

/// The command that `text` addresses to the worker with `prefix`, if any:
/// the text starts with the prefix and a space, and the words after that
/// state a command.
pub open spec fn addressed_command(prefix: Seq<char>, text: Seq<char>) -> Option<Instr> {
    let head = prefix + seq![' '];
    if has_prefix(text, head) {
        command_of(words(text.skip(head.len() as int)))
    } else {
        None
    }
}

/// Reads the command that `text` addresses to the worker with `prefix`.
/// A `play` argument is classified as locator or query.
pub fn parse_instruction(prefix: &str, text: &str) -> (r: Option<WorkerCommand>)
    ensures
        r is None ==> addressed_command(prefix@, text@) is None,
        r is Some ==> addressed_command(prefix@, text@) == Some(r->0@),
        r matches Some(WorkerCommand::Play(o)) ==> (o is Url <==> is_locator(o.text())),
{
    proof {
        reveal_strlit(" ");
    }
    let mut head = String::from_str(prefix);
    head.append(" ");
    assert(head@ =~= prefix@ + seq![' ']);
    if !starts_with(text, head.as_str()) {
        return None;
    }
    let n = text.unicode_len();
    let h = head.as_str().unicode_len();
    let rest = text.substring_char(h, n);
    assert(rest@ == text@.skip(h as int));
    assert(text@.skip((prefix@ + seq![' ']).len() as int) == rest@);
    let ws = split_words(rest);
    let ghost wv = views(ws@);
    if ws.len() == 0 {
        return None;
    }
    let name = ws[0];
    assert(name@ == wv[0]);
    let more = ws.len() > 1;
    assert(more == (wv.skip(1).len() > 0));
    if same_text(name, name_str(Order::Play)) {
        if more {
            Some(WorkerCommand::Play(MusicOrder::from(join_words(&ws, 1))))
        } else {
            None
        }
    } else if same_text(name, name_str(Order::Join)) {
        if more {
            assert(wv.skip(1)[0] == ws@[1]@);
            match parse_decimal(ws[1]) {
                Some(v) => Some(WorkerCommand::Join(Id(v))),
                None => None,
            }
        } else {
            None
        }
    } else if same_text(name, name_str(Order::Leave)) {
        Some(WorkerCommand::Leave)
    } else if same_text(name, name_str(Order::Pause)) {
        Some(WorkerCommand::Pause)
    } else if same_text(name, name_str(Order::Resume)) {
        Some(WorkerCommand::Resume)
    } else if same_text(name, name_str(Order::Skip)) {
        Some(WorkerCommand::Skip)
    } else if same_text(name, name_str(Order::Stop)) {
        Some(WorkerCommand::Stop)
    } else {
        None
    }
}

proof fn lemma_words_done(s: Seq<char>, done: Seq<Seq<char>>, cur: Seq<char>)
    ensures
        words_from(s, done, cur) == done + words_from(s, Seq::empty(), cur),
    decreases s.len(),
{
    if s.len() == 0 {
        if cur.len() > 0 {
            assert(done.push(cur) =~= done + Seq::<Seq<char>>::empty().push(cur));
        } else {
            assert(done =~= done + Seq::<Seq<char>>::empty());
        }
    } else if is_space(s[0]) {
        lemma_words_done(s.drop_first(), flush(done, cur), Seq::empty());
        lemma_words_done(s.drop_first(), flush(Seq::empty(), cur), Seq::empty());
        if cur.len() > 0 {
            assert(done.push(cur) =~= done + Seq::<Seq<char>>::empty().push(cur));
        } else {
            assert(done =~= done + Seq::<Seq<char>>::empty());
        }
        assert(flush(done, cur) + words_from(s.drop_first(), Seq::empty(), Seq::empty()) =~= done
            + (flush(Seq::empty(), cur) + words_from(s.drop_first(), Seq::empty(), Seq::empty())));
    } else {
        lemma_words_done(s.drop_first(), done, cur.push(s[0]));
        lemma_words_done(s.drop_first(), Seq::empty(), cur.push(s[0]));
        assert(Seq::<Seq<char>>::empty() + words_from(s.drop_first(), Seq::empty(), cur.push(s[0]))
            =~= words_from(s.drop_first(), Seq::empty(), cur.push(s[0])));
    }
}

proof fn lemma_words_through_word(w: Seq<char>, t: Seq<char>, done: Seq<Seq<char>>, cur: Seq<char>)
    requires
        forall|j: int| 0 <= j < w.len() ==> !is_space(#[trigger] w[j]),
    ensures
        words_from(w + t, done, cur) == words_from(t, done, cur + w),
    decreases w.len(),
{
    if w.len() == 0 {
        assert(w + t =~= t);
        assert(cur + w =~= cur);
    } else {
        let s = w + t;
        assert(s[0] == w[0]);
        assert(s.drop_first() =~= w.drop_first() + t);
        lemma_words_through_word(w.drop_first(), t, done, cur.push(w[0]));
        assert(cur.push(w[0]) + w.drop_first() =~= cur + w);
    }
}

proof fn lemma_words_of_word_and_rest(name: Seq<char>, arg: Option<Seq<char>>)
    requires
        name.len() > 0,
        forall|j: int| 0 <= j < name.len() ==> !is_space(#[trigger] name[j]),
    ensures
        arg is None ==> words(name) == seq![name],
        arg is Some ==> words(name + seq![' '] + arg->0) == seq![name] + words(arg->0),
{
    let e = Seq::<Seq<char>>::empty();
    let c = Seq::<char>::empty();
    match arg {
        None => {
            lemma_words_through_word(name, c, e, c);
            assert(name + c =~= name);
            assert(c + name =~= name);
            assert(e.push(name) =~= seq![name]);
        },
        Some(a) => {
            let t = seq![' '] + a;
            assert(name + seq![' '] + a =~= name + t);
            lemma_words_through_word(name, t, e, c);
            assert(c + name =~= name);
            assert(t[0] == ' ');
            assert(t.drop_first() =~= a);
            assert(e.push(name) =~= seq![name]);
            lemma_words_done(a, seq![name], c);
        },
    }
}

proof fn lemma_names_have_no_space(o: Order)
    ensures
        name_of(o).len() > 0,
        forall|j: int| 0 <= j < name_of(o).len() ==> !is_space(#[trigger] name_of(o)[j]),
{
    let n = name_of(o);
    assert forall|j: int| 0 <= j < n.len() implies !is_space(#[trigger] n[j]) by {
        match o {
            Order::Play => {},
            Order::Join => {},
            Order::Leave => {},
            Order::Pause => {},
            Order::Resume => {},
            Order::Skip => {},
            Order::Stop => {},
        }
    }
}

/// The worker addressed by `prefix` reads from a relayed instruction the
/// command word that the control bot wrote into it, followed by the words
/// of the argument.
pub proof fn lemma_relay_round_trip(prefix: Seq<char>, o: Order, arg: Option<Seq<char>>)
    ensures
        arg is None ==> addressed_command(prefix, instruction(prefix, name_of(o), arg))
            == command_of(seq![name_of(o)]),
        arg is Some ==> addressed_command(prefix, instruction(prefix, name_of(o), arg))
            == command_of(seq![name_of(o)] + words(arg->0)),
{
    let head = prefix + seq![' '];
    let t = instruction(prefix, name_of(o), arg);
    lemma_names_have_no_space(o);
    lemma_words_of_word_and_rest(name_of(o), arg);
    match arg {
        Some(a) => {
            assert(t =~= head + (name_of(o) + seq![' '] + a));
            assert(t.subrange(0, head.len() as int) =~= head);
            assert(t.skip(head.len() as int) =~= name_of(o) + seq![' '] + a);
        },
        None => {
            assert(t =~= head + name_of(o));
            assert(t.subrange(0, head.len() as int) =~= head);
            assert(t.skip(head.len() as int) =~= name_of(o));
        },
    }
}

/// A relayed `join` names the voice channel that the control bot wrote
/// into it; a relayed `play` carries the words of its order, joined by
/// single spaces.
pub proof fn lemma_relayed_arguments(prefix: Seq<char>, d: u64, order: Seq<char>)
    ensures
        addressed_command(prefix, instruction(prefix, name_of(Order::Join), Some(decimal(d as nat))))
            == Some(Instr::Join(d)),
        words(order).len() > 0 ==> addressed_command(
            prefix,
            instruction(prefix, name_of(Order::Play), Some(order)),
        ) == Some(Instr::Play(joined(words(order)))),
{
    let dec = decimal(d as nat);
    lemma_relay_round_trip(prefix, Order::Join, Some(dec));
    lemma_relay_round_trip(prefix, Order::Play, Some(order));
    lemma_decimal_round_trip(d as nat);
    assert forall|j: int| 0 <= j < dec.len() implies !is_space(#[trigger] dec[j]) by {
        assert(is_digit(dec[j]));
    }
    let e = Seq::<Seq<char>>::empty();
    let c = Seq::<char>::empty();
    lemma_words_through_word(dec, c, e, c);
    assert(dec + c =~= dec);
    assert(c + dec =~= dec);
    assert(words(dec) =~= seq![dec]);
    let js = seq![name_of(Order::Join)] + words(dec);
    assert(js.skip(1) =~= seq![dec]);
    let ps = seq![name_of(Order::Play)] + words(order);
    assert(ps.skip(1) =~= words(order));
    assert(name_of(Order::Join) != name_of(Order::Play)) by {
        assert(name_of(Order::Join)[0] != name_of(Order::Play)[0]);
    }
}

} // verus!
