use vstd::prelude::*;

use crate::model::Currency;
use crate::parser::error::{serr, ErrorKind, SyntaxError, SyntaxErrorView, SyntaxResult};
use crate::parser::expect::{expect_identifier, expect_integer, expect_stringlike, into_currency, pop_identifier, pop_integer, pop_stringlike, try_into_currency, TokensView};
use crate::parser::token::{tokens_view, Token, TokenView};
use crate::parser::transaction::{parse_transaction, Transaction, TransactionView};
use crate::text::{lowercase, push_str, same_text, string_of, to_lowercase};

verus! {

/// What a line of a transaction log tells the ledger to do.
#[derive(Debug)]
pub enum Command {
    Activate(String),
    BuoyancyTarget(u32),
    Deactivate(String),
    Deregister(String),
    Message(String),
    NewContract(String, String),
    NewPlayer(String, String),
    NoRecord(Box<Command>),
    Nuke,
    Payday,
    Relevel(Option<u32>),
    Rename(Currency, Currency),
    Report,
    Revision,
    Transaction(Transaction),
}

pub enum CommandView {
    Activate(Seq<char>),
    BuoyancyTarget(u32),
    Deactivate(Seq<char>),
    Deregister(Seq<char>),
    Message(Seq<char>),
    NewContract(Seq<char>, Seq<char>),
    NewPlayer(Seq<char>, Seq<char>),
    NoRecord(Box<CommandView>),
    Nuke,
    Payday,
    Relevel(Option<u32>),
    Rename(Currency, Currency),
    Report,
    Revision,
    Transaction(TransactionView),
}

impl View for Command {
    type V = CommandView;

    open spec fn view(&self) -> CommandView {
        command_view(self)
    }
}

pub open spec fn command_view(c: &Command) -> CommandView
    decreases c,
{
    match c {
        Command::Activate(s) => CommandView::Activate(s@),
        Command::BuoyancyTarget(b) => CommandView::BuoyancyTarget(*b),
        Command::Deactivate(s) => CommandView::Deactivate(s@),
        Command::Deregister(s) => CommandView::Deregister(s@),
        Command::Message(s) => CommandView::Message(s@),
        Command::NewContract(a, b) => CommandView::NewContract(a@, b@),
        Command::NewPlayer(a, b) => CommandView::NewPlayer(a@, b@),
        Command::NoRecord(c) => CommandView::NoRecord(Box::new(command_view(&**c))),
        Command::Nuke => CommandView::Nuke,
        Command::Payday => CommandView::Payday,
        Command::Relevel(o) => CommandView::Relevel(*o),
        Command::Rename(a, b) => CommandView::Rename(*a, *b),
        Command::Report => CommandView::Report,
        Command::Revision => CommandView::Revision,
        Command::Transaction(t) => CommandView::Transaction(t@),
    }
}

/// An identifier and an optional full name, which is the identifier where none is given.
pub open spec fn parse_named(t: TokensView, msg: Seq<char>) -> Result<
    (Seq<char>, Seq<char>),
    SyntaxErrorView,
> {
    match pop_identifier(t, msg) {
        (Err(e), _) => Err(e),
        (Ok(id), t1) => match pop_stringlike(t1, ""@) {
            (Ok(full), _) => Ok((id, full)),
            (Err(_), _) => Ok((id, id)),
        },
    }
}

/// The command named `name` (in any case) with the arguments `t`.
pub open spec fn parse_command(name: Seq<char>, t: TokensView) -> Result<
    CommandView,
    SyntaxErrorView,
>
    decreases t.len(),
{
    let l = lowercase(name);
    if l == "activate"@ {
        match pop_stringlike(t, "cannot activate no one"@).0 {
            Ok(s) => Ok(CommandView::Activate(s)),
            Err(e) => Err(e),
        }
    } else if l == "bt"@ {
        match pop_integer(t, "setting buoyancy target requires an integer"@).0 {
            Ok(i) => Ok(CommandView::BuoyancyTarget(i)),
            Err(e) => Err(e),
        }
    } else if l == "deactivate"@ {
        match pop_stringlike(t, "cannot deactivate no one"@).0 {
            Ok(s) => Ok(CommandView::Deactivate(s)),
            Err(e) => Err(e),
        }
    } else if l == "delplayer"@ || l == "delcontract"@ || l == "deregister"@ {
        match pop_identifier(t, "expected identifier in #deregister"@).0 {
            Ok(s) => Ok(CommandView::Deregister(s)),
            Err(e) => Err(e),
        }
    } else if l == "message"@ || l == "msg"@ {
        match pop_stringlike(t, "expected string for message"@).0 {
            Ok(s) => Ok(CommandView::Message(s)),
            Err(e) => Err(e),
        }
    } else if l == "newcontract"@ {
        match parse_named(t, "expected identifier in #newcontract"@) {
            Ok((a, b)) => Ok(CommandView::NewContract(a, b)),
            Err(e) => Err(e),
        }
    } else if l == "newplayer"@ || l == "register"@ {
        match parse_named(t, "expected identifier in #newplayer"@) {
            Ok((a, b)) => Ok(CommandView::NewPlayer(a, b)),
            Err(e) => Err(e),
        }
    } else if l == "norecord"@ || l == "nr"@ {
        match pop_identifier(t, "expected subcommand in #norecord"@) {
            (Err(e), _) => Err(e),
            (Ok(next), t1) => match parse_command(next, t1) {
                Ok(c) => Ok(CommandView::NoRecord(Box::new(c))),
                Err(e) => Err(e),
            },
        }
    } else if l == "nuke"@ {
        Ok(CommandView::Nuke)
    } else if l == "payday"@ {
        Ok(CommandView::Payday)
    } else if l == "relevel"@ {
        match pop_integer(t, ""@).0 {
            Ok(i) => Ok(CommandView::Relevel(Some(i))),
            Err(_) => Ok(CommandView::Relevel(None)),
        }
    } else if l == "rename"@ {
        match pop_identifier(t, "expected identifier in #rename"@) {
            (Err(e), _) => Err(e),
            (Ok(a), t1) => match into_currency(a) {
                Err(e) => Err(e),
                Ok(first) => match pop_identifier(t1, "expected identifier in #rename"@).0 {
                    Err(e) => Err(e),
                    Ok(b) => match into_currency(b) {
                        Err(e) => Err(e),
                        Ok(second) => Ok(CommandView::Rename(first, second)),
                    },
                },
            },
        }
    } else if l == "report"@ {
        Ok(CommandView::Report)
    } else if l == "revision"@ {
        Ok(CommandView::Revision)
    } else if l == "transaction"@ || l == "t"@ {
        match parse_transaction(t).0 {
            Ok(tv) => Ok(CommandView::Transaction(tv)),
            Err(e) => Err(e),
        }
    } else {
        Err(serr("no such command: "@ + name, ErrorKind::UnrecognizedCommand))
    }
}

fn named(tokens: &mut Vec<Token>, message: &str) -> (r: SyntaxResult<(String, String)>)
    ensures
        match parse_named(tokens_view(old(tokens)@), message@) {
            Ok((a, b)) => r matches Ok((x, y)) && x@ == a && y@ == b,
            Err(e) => r matches Err(x) && x@ == e,
        },
{
    let identifier = expect_identifier(tokens, message)?;
    let full_name = match expect_stringlike(tokens, "") {
        Ok(s) => s,
        Err(_) => identifier.clone(),
    };
    Ok((identifier, full_name))
}

impl Command {
    /// The command named `name` (in any case) with the arguments `tokens`; arguments
    /// beyond those the command takes are ignored.
    pub fn from_name_and_vec(name: String, tokens: Vec<Token>) -> (r: SyntaxResult<Command>)
        ensures
            match parse_command(name@, tokens_view(tokens@)) {
                Ok(v) => r matches Ok(c) && c@ == v,
                Err(e) => r matches Err(x) && x@ == e,
            },
        decreases tokens@.len(),
    {
        let mut tokens = tokens;
        let lower = to_lowercase(name.as_str());
        let l = lower.as_str();
        if same_text(l, "activate") {
            Ok(Command::Activate(expect_stringlike(&mut tokens, "cannot activate no one")?))
        } else if same_text(l, "bt") {
            Ok(
                Command::BuoyancyTarget(
                    expect_integer(&mut tokens, "setting buoyancy target requires an integer")?,
                ),
            )
        } else if same_text(l, "deactivate") {
            Ok(Command::Deactivate(expect_stringlike(&mut tokens, "cannot deactivate no one")?))
        } else if same_text(l, "delplayer") || same_text(l, "delcontract") || same_text(
            l,
            "deregister",
        ) {
            Ok(
                Command::Deregister(
                    expect_identifier(&mut tokens, "expected identifier in #deregister")?,
                ),
            )
        } else if same_text(l, "message") || same_text(l, "msg") {
            Ok(Command::Message(expect_stringlike(&mut tokens, "expected string for message")?))
        } else if same_text(l, "newcontract") {
            let (a, b) = named(&mut tokens, "expected identifier in #newcontract")?;
            Ok(Command::NewContract(a, b))
        } else if same_text(l, "newplayer") || same_text(l, "register") {
            let (a, b) = named(&mut tokens, "expected identifier in #newplayer")?;
            Ok(Command::NewPlayer(a, b))
        } else if same_text(l, "norecord") || same_text(l, "nr") {
            let next = expect_identifier(&mut tokens, "expected subcommand in #norecord")?;
            let c = Command::from_name_and_vec(next, tokens)?;
            Ok(Command::NoRecord(Box::new(c)))
        } else if same_text(l, "nuke") {
            Ok(Command::Nuke)
        } else if same_text(l, "payday") {
            Ok(Command::Payday)
        } else if same_text(l, "relevel") {
            Ok(
                Command::Relevel(
                    match expect_integer(&mut tokens, "") {
                        Ok(i) => Some(i),
                        Err(_) => None,
                    },
                ),
            )
        } else if same_text(l, "rename") {
            let a = expect_identifier(&mut tokens, "expected identifier in #rename")?;
            let first = try_into_currency(a.as_str())?;
            let b = expect_identifier(&mut tokens, "expected identifier in #rename")?;
            let second = try_into_currency(b.as_str())?;
            Ok(Command::Rename(first, second))
        } else if same_text(l, "report") {
            Ok(Command::Report)
        } else if same_text(l, "revision") {
            Ok(Command::Revision)
        } else if same_text(l, "transaction") || same_text(l, "t") {
            Ok(Command::Transaction(Transaction::from_vec(tokens)?))
        } else {
            let mut m: Vec<char> = Vec::new();
            push_str(&mut m, "no such command: ");
            push_str(&mut m, name.as_str());
            Err(SyntaxError { message: string_of(m.as_slice()), kind: ErrorKind::UnrecognizedCommand })
        }
    }
}


/// The name and full name that a command creating an entity reads from `t`: the first
/// token's identifier, then the text of a second token where it is a string or an
/// identifier, else the identifier again.
pub open spec fn entity_names(t: TokensView) -> Option<(Seq<char>, Seq<char>)> {
    if t.len() > 0 && t[0] is Identifier {
        let id = t[0]->Identifier_0;
        let full = if t.len() > 1 && t[1] is String {
            t[1]->String_0
        } else if t.len() > 1 && t[1] is Identifier {
            t[1]->Identifier_0
        } else {
            id
        };
        Some((id, full))
    } else {
        None
    }
}

/// `#newplayer` and `#register` (in any case) create a player, `#newcontract` a contract,
/// of the identifier and full name that follow; without an identifier they are refused.
pub proof fn law_entity_commands(name: Seq<char>, t: TokensView)
    ensures
        lowercase(name) == "newplayer"@ || lowercase(name) == "register"@ ==> match entity_names(
            t,
        ) {
            Some((id, full)) => parse_command(name, t) == Ok::<CommandView, SyntaxErrorView>(
                CommandView::NewPlayer(id, full),
            ),
            None => parse_command(name, t) is Err,
        },
        lowercase(name) == "newcontract"@ ==> match entity_names(t) {
            Some((id, full)) => parse_command(name, t) == Ok::<CommandView, SyntaxErrorView>(
                CommandView::NewContract(id, full),
            ),
            None => parse_command(name, t) is Err,
        },
{
    lemma_entity_names(t, "expected identifier in #newplayer"@);
    lemma_entity_names(t, "expected identifier in #newcontract"@);
    let l = lowercase(name);
    if l == "newplayer"@ || l == "register"@ {
        lemma_newplayer_branch(name, t);
    }
    if l == "newcontract"@ {
        lemma_newcontract_branch(name, t);
    }
}

proof fn lemma_newplayer_branch(name: Seq<char>, t: TokensView)
    requires
        lowercase(name) == "newplayer"@ || lowercase(name) == "register"@,
    ensures
        parse_command(name, t) == match parse_named(t, "expected identifier in #newplayer"@) {
            Ok((a, b)) => Ok(CommandView::NewPlayer(a, b)),
            Err(e) => Err::<CommandView, SyntaxErrorView>(e),
        },
{
    reveal_strlit("newplayer");
    reveal_strlit("register");
    reveal_strlit("newcontract");
    reveal_strlit("activate");
    reveal_strlit("bt");
    reveal_strlit("deactivate");
    reveal_strlit("delplayer");
    reveal_strlit("delcontract");
    reveal_strlit("deregister");
    reveal_strlit("message");
    reveal_strlit("msg");
    let l = lowercase(name);
    assert(l[0] != 'a' && l[0] != 'b' && l[0] != 'd' && l[0] != 'm');
    assert(l != "newcontract"@) by {
        if l == "newplayer"@ {
            assert(l[3] == 'p');
        } else {
            assert(l[0] == 'r');
        }
        assert("newcontract"@[3] == 'c' && "newcontract"@[0] == 'n');
    }
}

proof fn lemma_newcontract_branch(name: Seq<char>, t: TokensView)
    requires
        lowercase(name) == "newcontract"@,
    ensures
        parse_command(name, t) == match parse_named(t, "expected identifier in #newcontract"@) {
            Ok((a, b)) => Ok(CommandView::NewContract(a, b)),
            Err(e) => Err::<CommandView, SyntaxErrorView>(e),
        },
{
    reveal_strlit("newcontract");
    reveal_strlit("activate");
    reveal_strlit("bt");
    reveal_strlit("deactivate");
    reveal_strlit("delplayer");
    reveal_strlit("delcontract");
    reveal_strlit("deregister");
    reveal_strlit("message");
    reveal_strlit("msg");
    let l = lowercase(name);
    assert(l[0] == 'n');
}

proof fn lemma_entity_names(t: TokensView, msg: Seq<char>)
    ensures
        match entity_names(t) {
            Some(p) => parse_named(t, msg) == Ok::<(Seq<char>, Seq<char>), SyntaxErrorView>(p),
            None => parse_named(t, msg) is Err,
        },
{
    if t.len() > 1 {
        assert(t.drop_first()[0] == t[1]);
    }
}

/// Each command name (in any case) gives its own kind of command, whatever follows it.
pub proof fn law_command_kinds(name: Seq<char>, t: TokensView)
    requires
        parse_command(name, t) is Ok,
    ensures
        ({
            let c = parse_command(name, t)->Ok_0;
            let l = lowercase(name);
            &&& l == "activate"@ ==> c is Activate
            &&& l == "bt"@ ==> c is BuoyancyTarget
            &&& l == "deactivate"@ ==> c is Deactivate
            &&& l == "delplayer"@ || l == "delcontract"@ || l == "deregister"@ ==> c is Deregister
            &&& l == "message"@ || l == "msg"@ ==> c is Message
            &&& l == "newcontract"@ ==> c is NewContract
            &&& l == "newplayer"@ || l == "register"@ ==> c is NewPlayer
            &&& l == "norecord"@ || l == "nr"@ ==> c is NoRecord
            &&& l == "nuke"@ ==> c is Nuke
            &&& l == "payday"@ ==> c is Payday
            &&& l == "relevel"@ ==> c is Relevel
            &&& l == "rename"@ ==> c is Rename
            &&& l == "report"@ ==> c is Report
            &&& l == "revision"@ ==> c is Revision
            &&& l == "transaction"@ || l == "t"@ ==> c is Transaction
        }),
{
    let l = lowercase(name);
    if l == "activate"@ {
        lemma_name_chars_activate(l);
    }
    if l == "bt"@ {
        lemma_name_chars_bt(l);
    }
    if l == "deactivate"@ {
        lemma_name_chars_deactivate(l);
    }
    if l == "delplayer"@ {
        lemma_name_chars_delplayer(l);
    }
    if l == "delcontract"@ {
        lemma_name_chars_delcontract(l);
    }
    if l == "deregister"@ {
        lemma_name_chars_deregister(l);
    }
    if l == "message"@ {
        lemma_name_chars_message(l);
    }
    if l == "msg"@ {
        lemma_name_chars_msg(l);
    }
    if l == "newcontract"@ {
        lemma_name_chars_newcontract(l);
    }
    if l == "newplayer"@ {
        lemma_name_chars_newplayer(l);
    }
    if l == "register"@ {
        lemma_name_chars_register(l);
    }
    if l == "norecord"@ {
        lemma_name_chars_norecord(l);
    }
    if l == "nr"@ {
        lemma_name_chars_nr(l);
    }
    if l == "nuke"@ {
        lemma_name_chars_nuke(l);
    }
    if l == "payday"@ {
        lemma_name_chars_payday(l);
    }
    if l == "relevel"@ {
        lemma_name_chars_relevel(l);
    }
    if l == "rename"@ {
        lemma_name_chars_rename(l);
    }
    if l == "report"@ {
        lemma_name_chars_report(l);
    }
    if l == "revision"@ {
        lemma_name_chars_revision(l);
    }
    if l == "transaction"@ {
        lemma_name_chars_transaction(l);
    }
    if l == "t"@ {
        lemma_name_chars_t(l);
    }
}


proof fn lemma_name_chars_activate(l: Seq<char>)
    requires
        l == "activate"@,
    ensures
        l.len() == 8 && l[0] == 'a' && l[1] == 'c' && l[2] == 't',
{
    reveal_strlit("activate");
    reveal_strlit("bt");
    reveal_strlit("deactivate");
    reveal_strlit("delplayer");
    reveal_strlit("delcontract");
    reveal_strlit("deregister");
    reveal_strlit("message");
    reveal_strlit("msg");
    reveal_strlit("newcontract");
    reveal_strlit("newplayer");
    reveal_strlit("register");
    reveal_strlit("norecord");
    reveal_strlit("nr");
    reveal_strlit("nuke");
    reveal_strlit("payday");
    reveal_strlit("relevel");
    reveal_strlit("rename");
    reveal_strlit("report");
    reveal_strlit("revision");
    reveal_strlit("transaction");
    reveal_strlit("t");
}

proof fn lemma_name_chars_bt(l: Seq<char>)
    requires
        l == "bt"@,
    ensures
        l.len() == 2 && l[0] == 'b' && l[1] == 't',
{
    reveal_strlit("activate");
    reveal_strlit("bt");
    reveal_strlit("deactivate");
    reveal_strlit("delplayer");
    reveal_strlit("delcontract");
    reveal_strlit("deregister");
    reveal_strlit("message");
    reveal_strlit("msg");
    reveal_strlit("newcontract");
    reveal_strlit("newplayer");
    reveal_strlit("register");
    reveal_strlit("norecord");
    reveal_strlit("nr");
    reveal_strlit("nuke");
    reveal_strlit("payday");
    reveal_strlit("relevel");
    reveal_strlit("rename");
    reveal_strlit("report");
    reveal_strlit("revision");
    reveal_strlit("transaction");
    reveal_strlit("t");
}

proof fn lemma_name_chars_deactivate(l: Seq<char>)
    requires
        l == "deactivate"@,
    ensures
        l.len() == 10 && l[0] == 'd' && l[1] == 'e' && l[2] == 'a',
{
    reveal_strlit("activate");
    reveal_strlit("bt");
    reveal_strlit("deactivate");
    reveal_strlit("delplayer");
    reveal_strlit("delcontract");
    reveal_strlit("deregister");
    reveal_strlit("message");
    reveal_strlit("msg");
    reveal_strlit("newcontract");
    reveal_strlit("newplayer");
    reveal_strlit("register");
    reveal_strlit("norecord");
    reveal_strlit("nr");
    reveal_strlit("nuke");
    reveal_strlit("payday");
    reveal_strlit("relevel");
    reveal_strlit("rename");
    reveal_strlit("report");
    reveal_strlit("revision");
    reveal_strlit("transaction");
    reveal_strlit("t");
}

proof fn lemma_name_chars_delplayer(l: Seq<char>)
    requires
        l == "delplayer"@,
    ensures
        l.len() == 9 && l[0] == 'd' && l[1] == 'e' && l[2] == 'l',
{
    reveal_strlit("activate");
    reveal_strlit("bt");
    reveal_strlit("deactivate");
    reveal_strlit("delplayer");
    reveal_strlit("delcontract");
    reveal_strlit("deregister");
    reveal_strlit("message");
    reveal_strlit("msg");
    reveal_strlit("newcontract");
    reveal_strlit("newplayer");
    reveal_strlit("register");
    reveal_strlit("norecord");
    reveal_strlit("nr");
    reveal_strlit("nuke");
    reveal_strlit("payday");
    reveal_strlit("relevel");
    reveal_strlit("rename");
    reveal_strlit("report");
    reveal_strlit("revision");
    reveal_strlit("transaction");
    reveal_strlit("t");
}

proof fn lemma_name_chars_delcontract(l: Seq<char>)
    requires
        l == "delcontract"@,
    ensures
        l.len() == 11 && l[0] == 'd' && l[1] == 'e' && l[2] == 'l',
{
    reveal_strlit("activate");
    reveal_strlit("bt");
    reveal_strlit("deactivate");
    reveal_strlit("delplayer");
    reveal_strlit("delcontract");
    reveal_strlit("deregister");
    reveal_strlit("message");
    reveal_strlit("msg");
    reveal_strlit("newcontract");
    reveal_strlit("newplayer");
    reveal_strlit("register");
    reveal_strlit("norecord");
    reveal_strlit("nr");
    reveal_strlit("nuke");
    reveal_strlit("payday");
    reveal_strlit("relevel");
    reveal_strlit("rename");
    reveal_strlit("report");
    reveal_strlit("revision");
    reveal_strlit("transaction");
    reveal_strlit("t");
}

proof fn lemma_name_chars_deregister(l: Seq<char>)
    requires
        l == "deregister"@,
    ensures
        l.len() == 10 && l[0] == 'd' && l[1] == 'e' && l[2] == 'r',
{
    reveal_strlit("activate");
    reveal_strlit("bt");
    reveal_strlit("deactivate");
    reveal_strlit("delplayer");
    reveal_strlit("delcontract");
    reveal_strlit("deregister");
    reveal_strlit("message");
    reveal_strlit("msg");
    reveal_strlit("newcontract");
    reveal_strlit("newplayer");
    reveal_strlit("register");
    reveal_strlit("norecord");
    reveal_strlit("nr");
    reveal_strlit("nuke");
    reveal_strlit("payday");
    reveal_strlit("relevel");
    reveal_strlit("rename");
    reveal_strlit("report");
    reveal_strlit("revision");
    reveal_strlit("transaction");
    reveal_strlit("t");
}

proof fn lemma_name_chars_message(l: Seq<char>)
    requires
        l == "message"@,
    ensures
        l.len() == 7 && l[0] == 'm' && l[1] == 'e' && l[2] == 's',
{
    reveal_strlit("activate");
    reveal_strlit("bt");
    reveal_strlit("deactivate");
    reveal_strlit("delplayer");
    reveal_strlit("delcontract");
    reveal_strlit("deregister");
    reveal_strlit("message");
    reveal_strlit("msg");
    reveal_strlit("newcontract");
    reveal_strlit("newplayer");
    reveal_strlit("register");
    reveal_strlit("norecord");
    reveal_strlit("nr");
    reveal_strlit("nuke");
    reveal_strlit("payday");
    reveal_strlit("relevel");
    reveal_strlit("rename");
    reveal_strlit("report");
    reveal_strlit("revision");
    reveal_strlit("transaction");
    reveal_strlit("t");
}

proof fn lemma_name_chars_msg(l: Seq<char>)
    requires
        l == "msg"@,
    ensures
        l.len() == 3 && l[0] == 'm' && l[1] == 's' && l[2] == 'g',
{
    reveal_strlit("activate");
    reveal_strlit("bt");
    reveal_strlit("deactivate");
    reveal_strlit("delplayer");
    reveal_strlit("delcontract");
    reveal_strlit("deregister");
    reveal_strlit("message");
    reveal_strlit("msg");
    reveal_strlit("newcontract");
    reveal_strlit("newplayer");
    reveal_strlit("register");
    reveal_strlit("norecord");
    reveal_strlit("nr");
    reveal_strlit("nuke");
    reveal_strlit("payday");
    reveal_strlit("relevel");
    reveal_strlit("rename");
    reveal_strlit("report");
    reveal_strlit("revision");
    reveal_strlit("transaction");
    reveal_strlit("t");
}

proof fn lemma_name_chars_newcontract(l: Seq<char>)
    requires
        l == "newcontract"@,
    ensures
        l.len() == 11 && l[0] == 'n' && l[1] == 'e' && l[2] == 'w',
{
    reveal_strlit("activate");
    reveal_strlit("bt");
    reveal_strlit("deactivate");
    reveal_strlit("delplayer");
    reveal_strlit("delcontract");
    reveal_strlit("deregister");
    reveal_strlit("message");
    reveal_strlit("msg");
    reveal_strlit("newcontract");
    reveal_strlit("newplayer");
    reveal_strlit("register");
    reveal_strlit("norecord");
    reveal_strlit("nr");
    reveal_strlit("nuke");
    reveal_strlit("payday");
    reveal_strlit("relevel");
    reveal_strlit("rename");
    reveal_strlit("report");
    reveal_strlit("revision");
    reveal_strlit("transaction");
    reveal_strlit("t");
}

proof fn lemma_name_chars_newplayer(l: Seq<char>)
    requires
        l == "newplayer"@,
    ensures
        l.len() == 9 && l[0] == 'n' && l[1] == 'e' && l[2] == 'w',
{
    reveal_strlit("activate");
    reveal_strlit("bt");
    reveal_strlit("deactivate");
    reveal_strlit("delplayer");
    reveal_strlit("delcontract");
    reveal_strlit("deregister");
    reveal_strlit("message");
    reveal_strlit("msg");
    reveal_strlit("newcontract");
    reveal_strlit("newplayer");
    reveal_strlit("register");
    reveal_strlit("norecord");
    reveal_strlit("nr");
    reveal_strlit("nuke");
    reveal_strlit("payday");
    reveal_strlit("relevel");
    reveal_strlit("rename");
    reveal_strlit("report");
    reveal_strlit("revision");
    reveal_strlit("transaction");
    reveal_strlit("t");
}

proof fn lemma_name_chars_register(l: Seq<char>)
    requires
        l == "register"@,
    ensures
        l.len() == 8 && l[0] == 'r' && l[1] == 'e' && l[2] == 'g',
{
    reveal_strlit("activate");
    reveal_strlit("bt");
    reveal_strlit("deactivate");
    reveal_strlit("delplayer");
    reveal_strlit("delcontract");
    reveal_strlit("deregister");
    reveal_strlit("message");
    reveal_strlit("msg");
    reveal_strlit("newcontract");
    reveal_strlit("newplayer");
    reveal_strlit("register");
    reveal_strlit("norecord");
    reveal_strlit("nr");
    reveal_strlit("nuke");
    reveal_strlit("payday");
    reveal_strlit("relevel");
    reveal_strlit("rename");
    reveal_strlit("report");
    reveal_strlit("revision");
    reveal_strlit("transaction");
    reveal_strlit("t");
}

proof fn lemma_name_chars_norecord(l: Seq<char>)
    requires
        l == "norecord"@,
    ensures
        l.len() == 8 && l[0] == 'n' && l[1] == 'o' && l[2] == 'r',
{
    reveal_strlit("activate");
    reveal_strlit("bt");
    reveal_strlit("deactivate");
    reveal_strlit("delplayer");
    reveal_strlit("delcontract");
    reveal_strlit("deregister");
    reveal_strlit("message");
    reveal_strlit("msg");
    reveal_strlit("newcontract");
    reveal_strlit("newplayer");
    reveal_strlit("register");
    reveal_strlit("norecord");
    reveal_strlit("nr");
    reveal_strlit("nuke");
    reveal_strlit("payday");
    reveal_strlit("relevel");
    reveal_strlit("rename");
    reveal_strlit("report");
    reveal_strlit("revision");
    reveal_strlit("transaction");
    reveal_strlit("t");
}

proof fn lemma_name_chars_nr(l: Seq<char>)
    requires
        l == "nr"@,
    ensures
        l.len() == 2 && l[0] == 'n' && l[1] == 'r',
{
    reveal_strlit("activate");
    reveal_strlit("bt");
    reveal_strlit("deactivate");
    reveal_strlit("delplayer");
    reveal_strlit("delcontract");
    reveal_strlit("deregister");
    reveal_strlit("message");
    reveal_strlit("msg");
    reveal_strlit("newcontract");
    reveal_strlit("newplayer");
    reveal_strlit("register");
    reveal_strlit("norecord");
    reveal_strlit("nr");
    reveal_strlit("nuke");
    reveal_strlit("payday");
    reveal_strlit("relevel");
    reveal_strlit("rename");
    reveal_strlit("report");
    reveal_strlit("revision");
    reveal_strlit("transaction");
    reveal_strlit("t");
}

proof fn lemma_name_chars_nuke(l: Seq<char>)
    requires
        l == "nuke"@,
    ensures
        l.len() == 4 && l[0] == 'n' && l[1] == 'u' && l[2] == 'k',
{
    reveal_strlit("activate");
    reveal_strlit("bt");
    reveal_strlit("deactivate");
    reveal_strlit("delplayer");
    reveal_strlit("delcontract");
    reveal_strlit("deregister");
    reveal_strlit("message");
    reveal_strlit("msg");
    reveal_strlit("newcontract");
    reveal_strlit("newplayer");
    reveal_strlit("register");
    reveal_strlit("norecord");
    reveal_strlit("nr");
    reveal_strlit("nuke");
    reveal_strlit("payday");
    reveal_strlit("relevel");
    reveal_strlit("rename");
    reveal_strlit("report");
    reveal_strlit("revision");
    reveal_strlit("transaction");
    reveal_strlit("t");
}

proof fn lemma_name_chars_payday(l: Seq<char>)
    requires
        l == "payday"@,
    ensures
        l.len() == 6 && l[0] == 'p' && l[1] == 'a' && l[2] == 'y',
{
    reveal_strlit("activate");
    reveal_strlit("bt");
    reveal_strlit("deactivate");
    reveal_strlit("delplayer");
    reveal_strlit("delcontract");
    reveal_strlit("deregister");
    reveal_strlit("message");
    reveal_strlit("msg");
    reveal_strlit("newcontract");
    reveal_strlit("newplayer");
    reveal_strlit("register");
    reveal_strlit("norecord");
    reveal_strlit("nr");
    reveal_strlit("nuke");
    reveal_strlit("payday");
    reveal_strlit("relevel");
    reveal_strlit("rename");
    reveal_strlit("report");
    reveal_strlit("revision");
    reveal_strlit("transaction");
    reveal_strlit("t");
}

proof fn lemma_name_chars_relevel(l: Seq<char>)
    requires
        l == "relevel"@,
    ensures
        l.len() == 7 && l[0] == 'r' && l[1] == 'e' && l[2] == 'l',
{
    reveal_strlit("activate");
    reveal_strlit("bt");
    reveal_strlit("deactivate");
    reveal_strlit("delplayer");
    reveal_strlit("delcontract");
    reveal_strlit("deregister");
    reveal_strlit("message");
    reveal_strlit("msg");
    reveal_strlit("newcontract");
    reveal_strlit("newplayer");
    reveal_strlit("register");
    reveal_strlit("norecord");
    reveal_strlit("nr");
    reveal_strlit("nuke");
    reveal_strlit("payday");
    reveal_strlit("relevel");
    reveal_strlit("rename");
    reveal_strlit("report");
    reveal_strlit("revision");
    reveal_strlit("transaction");
    reveal_strlit("t");
}

proof fn lemma_name_chars_rename(l: Seq<char>)
    requires
        l == "rename"@,
    ensures
        l.len() == 6 && l[0] == 'r' && l[1] == 'e' && l[2] == 'n',
{
    reveal_strlit("activate");
    reveal_strlit("bt");
    reveal_strlit("deactivate");
    reveal_strlit("delplayer");
    reveal_strlit("delcontract");
    reveal_strlit("deregister");
    reveal_strlit("message");
    reveal_strlit("msg");
    reveal_strlit("newcontract");
    reveal_strlit("newplayer");
    reveal_strlit("register");
    reveal_strlit("norecord");
    reveal_strlit("nr");
    reveal_strlit("nuke");
    reveal_strlit("payday");
    reveal_strlit("relevel");
    reveal_strlit("rename");
    reveal_strlit("report");
    reveal_strlit("revision");
    reveal_strlit("transaction");
    reveal_strlit("t");
}

proof fn lemma_name_chars_report(l: Seq<char>)
    requires
        l == "report"@,
    ensures
        l.len() == 6 && l[0] == 'r' && l[1] == 'e' && l[2] == 'p',
{
    reveal_strlit("activate");
    reveal_strlit("bt");
    reveal_strlit("deactivate");
    reveal_strlit("delplayer");
    reveal_strlit("delcontract");
    reveal_strlit("deregister");
    reveal_strlit("message");
    reveal_strlit("msg");
    reveal_strlit("newcontract");
    reveal_strlit("newplayer");
    reveal_strlit("register");
    reveal_strlit("norecord");
    reveal_strlit("nr");
    reveal_strlit("nuke");
    reveal_strlit("payday");
    reveal_strlit("relevel");
    reveal_strlit("rename");
    reveal_strlit("report");
    reveal_strlit("revision");
    reveal_strlit("transaction");
    reveal_strlit("t");
}

proof fn lemma_name_chars_revision(l: Seq<char>)
    requires
        l == "revision"@,
    ensures
        l.len() == 8 && l[0] == 'r' && l[1] == 'e' && l[2] == 'v',
{
    reveal_strlit("activate");
    reveal_strlit("bt");
    reveal_strlit("deactivate");
    reveal_strlit("delplayer");
    reveal_strlit("delcontract");
    reveal_strlit("deregister");
    reveal_strlit("message");
    reveal_strlit("msg");
    reveal_strlit("newcontract");
    reveal_strlit("newplayer");
    reveal_strlit("register");
    reveal_strlit("norecord");
    reveal_strlit("nr");
    reveal_strlit("nuke");
    reveal_strlit("payday");
    reveal_strlit("relevel");
    reveal_strlit("rename");
    reveal_strlit("report");
    reveal_strlit("revision");
    reveal_strlit("transaction");
    reveal_strlit("t");
}

proof fn lemma_name_chars_transaction(l: Seq<char>)
    requires
        l == "transaction"@,
    ensures
        l.len() == 11 && l[0] == 't' && l[1] == 'r' && l[2] == 'a',
{
    reveal_strlit("activate");
    reveal_strlit("bt");
    reveal_strlit("deactivate");
    reveal_strlit("delplayer");
    reveal_strlit("delcontract");
    reveal_strlit("deregister");
    reveal_strlit("message");
    reveal_strlit("msg");
    reveal_strlit("newcontract");
    reveal_strlit("newplayer");
    reveal_strlit("register");
    reveal_strlit("norecord");
    reveal_strlit("nr");
    reveal_strlit("nuke");
    reveal_strlit("payday");
    reveal_strlit("relevel");
    reveal_strlit("rename");
    reveal_strlit("report");
    reveal_strlit("revision");
    reveal_strlit("transaction");
    reveal_strlit("t");
}

proof fn lemma_name_chars_t(l: Seq<char>)
    requires
        l == "t"@,
    ensures
        l.len() == 1 && l[0] == 't',
{
    reveal_strlit("activate");
    reveal_strlit("bt");
    reveal_strlit("deactivate");
    reveal_strlit("delplayer");
    reveal_strlit("delcontract");
    reveal_strlit("deregister");
    reveal_strlit("message");
    reveal_strlit("msg");
    reveal_strlit("newcontract");
    reveal_strlit("newplayer");
    reveal_strlit("register");
    reveal_strlit("norecord");
    reveal_strlit("nr");
    reveal_strlit("nuke");
    reveal_strlit("payday");
    reveal_strlit("relevel");
    reveal_strlit("rename");
    reveal_strlit("report");
    reveal_strlit("revision");
    reveal_strlit("transaction");
    reveal_strlit("t");
}

} // verus!
