use vstd::prelude::*;
use crate::errors::{KakError, KakMessage};
use crate::register::Register;
use crate::set::views;
use crate::types::{desc_text, SelectionDesc};

verus! {

/// `s` with each single quote doubled, as the editor's quoted strings need.
pub open spec fn escaped(s: Seq<char>) -> Seq<char>
    decreases s.len(),
{
    if s.len() == 0 {
        s
    } else {
        escaped(s.drop_last()) + if s.last() == '\'' {
            seq!['\'', '\'']
        } else {
            seq![s.last()]
        }
    }
}

/// Escapes a string to be sent to the editor by doubling each single quote.
pub fn escape(s: &str) -> (r: String)
    ensures
        r@ == escaped(s@),
{
    let n = s.unicode_len();
    let mut out = String::new();
    let mut i: usize = 0;
    proof {
        reveal_strlit("'");
    }
    while i < n
        invariant
            n == s@.len(),
            i <= n,
            out@ == escaped(s@.subrange(0, i as int)),
        decreases n - i,
    {
        let ghost t = s@.subrange(0, i + 1);
        proof {
            assert(t.drop_last() =~= s@.subrange(0, i as int));
            assert(t.last() == s@[i as int]);
        }
        let c = s.substring_char(i, i + 1);
        proof {
            assert(c@ =~= seq![s@[i as int]]);
            reveal_strlit("'");
        }
        out.append(c);
        if s.get_char(i) == '\'' {
            out.append("'");
        }
        proof {
            assert(out@ =~= escaped(t));
        }
        i = i + 1;
    }
    proof {
        assert(s@.subrange(0, n as int) =~= s@);
    }
    out
}

/// Each string, escaped, in single quotes, after a space.
pub open spec fn quoted_list(items: Seq<Seq<char>>) -> Seq<char>
    decreases items.len(),
{
    if items.len() == 0 {
        Seq::empty()
    } else {
        quoted_list(items.drop_last()) + " '"@ + escaped(items.last()) + "'"@
    }
}

fn quote_all(items: &Vec<String>) -> (r: String)
    ensures
        r@ == quoted_list(views(items@)),
{
    let mut out = String::new();
    let mut k: usize = 0;
    proof {
        reveal_strlit(" '");
        reveal_strlit("'");
    }
    while k < items.len()
        invariant
            k <= items.len(),
            out@ == quoted_list(views(items@).subrange(0, k as int)),
        decreases items.len() - k,
    {
        let ghost t = views(items@).subrange(0, k + 1);
        proof {
            assert(t.drop_last() =~= views(items@).subrange(0, k as int));
            assert(t.last() == items@[k as int]@);
        }
        out.append(" '");
        let e = escape(items[k].as_str());
        out.append(e.as_str());
        out.append("'");
        proof {
            assert(out@ =~= quoted_list(t));
        }
        k = k + 1;
    }
    proof {
        assert(views(items@).subrange(0, items@.len() as int) =~= views(items@));
    }
    out
}

/// The command that replaces the contents of the selections.
pub fn set_selections(selections: &Vec<String>) -> (r: Result<String, KakError>)
    ensures
        match r {
            Ok(c) => selections.len() > 0 && c@ == "set-register '\"'"@ + quoted_list(views(selections@))
                + "; execute-keys R;"@,
            Err(e) => selections.len() == 0 && e is SetEmptySelections,
        },
{
    if selections.len() == 0 {
        return Err(KakError::SetEmptySelections);
    }
    let mut out = String::from_str("set-register '\"'");
    let items = quote_all(selections);
    out.append(items.as_str());
    out.append("; execute-keys R;");
    proof {
        reveal_strlit("set-register '\"'");
        reveal_strlit("; execute-keys R;");
    }
    Ok(out)
}

/// Each range after a space, as `row.col,row.col`.
pub open spec fn desc_list(descs: Seq<SelectionDesc>) -> Seq<char>
    decreases descs.len(),
{
    if descs.len() == 0 {
        Seq::empty()
    } else {
        desc_list(descs.drop_last()) + seq![' '] + desc_text(descs.last())
    }
}

/// The command that selects the given ranges.
pub fn set_selections_desc(selections: &Vec<SelectionDesc>) -> (r: Result<String, KakError>)
    ensures
        match r {
            Ok(c) => selections.len() > 0 && c@ == "select"@ + desc_list(selections@) + seq![';'],
            Err(e) => selections.len() == 0 && e is SetEmptySelections,
        },
{
    if selections.len() == 0 {
        return Err(KakError::SetEmptySelections);
    }
    proof {
        reveal_strlit("select");
        reveal_strlit(" ");
        reveal_strlit(";");
    }
    let mut out = String::from_str("select");
    let mut k: usize = 0;
    while k < selections.len()
        invariant
            k <= selections.len(),
            out@ == "select"@ + desc_list(selections@.subrange(0, k as int)),
        decreases selections.len() - k,
    {
        let ghost t = selections@.subrange(0, k + 1);
        proof {
            assert(t.drop_last() =~= selections@.subrange(0, k as int));
            assert(t.last() == selections@[k as int]);
        }
        proof {
            reveal_strlit(" ");
        }
        out.append(" ");
        let d = selections[k].to_string();
        out.append(d.as_str());
        proof {
            assert(out@ =~= "select"@ + desc_list(t));
        }
        k = k + 1;
    }
    out.append(";");
    proof {
        assert(selections@.subrange(0, selections@.len() as int) =~= selections@);
    }
    Ok(out)
}

pub open spec fn echo_text(m: Seq<char>) -> Seq<char> {
    "echo '"@ + escaped(m) + "';"@
}

pub open spec fn echo_debug_text(m: Seq<char>) -> Seq<char> {
    "echo -debug '"@ + escaped(m) + "';"@
}

/// The commands that show a message to the user and log it, with optional
/// detail for the log.
pub open spec fn message_text(m: Seq<char>, debug: Option<Seq<char>>) -> Seq<char> {
    echo_text(m) + echo_debug_text(m) + match debug {
        Some(d) => echo_debug_text(d),
        None => Seq::empty(),
    }
}

/// The commands that show `message` and log it, with `debug_message` logged after.
pub fn display_message(message: &str, debug_message: Option<&str>) -> (r: String)
    ensures
        r@ == message_text(
            message@,
            match debug_message {
                Some(d) => Some(d@),
                None => None,
            },
        ),
{
    proof {
        reveal_strlit("echo '");
        reveal_strlit("';");
        reveal_strlit("echo -debug '");
    }
    let msg = escape(message);
    let mut out = String::from_str("echo '");
    out.append(msg.as_str());
    out.append("';");
    out.append("echo -debug '");
    out.append(msg.as_str());
    out.append("';");
    match debug_message {
        Some(d) => {
            let dm = escape(d);
            out.append("echo -debug '");
            out.append(dm.as_str());
            out.append("';");
            proof {
                assert(out@ =~= message_text(message@, Some(d@)));
            }
        },
        None => {
            proof {
                assert(out@ =~= message_text(message@, None));
            }
        },
    }
    out
}

/// The commands that show a message and its detail.
pub fn send_message(msg: &KakMessage) -> (r: String)
    ensures
        r@ == message_text(
            msg.0@,
            match msg.1 {
                Some(d) => Some(d@),
                None => None,
            },
        ),
{
    match &msg.1 {
        Some(d) => display_message(msg.0.as_str(), Some(d.as_str())),
        None => display_message(msg.0.as_str(), None),
    }
}

/// A command terminated for the command channel.
pub fn cmd(command: &str) -> (r: String)
    ensures
        r@ == command@ + seq![';'],
{
    let mut out = String::from_str(command);
    out.append(";");
    proof {
        reveal_strlit(";");
    }
    out
}

/// The command that restores the selections saved in register `r`.
pub fn restore_register(r: Register) -> (c: String)
    ensures
        c@ == "execute-keys '\""@ + r.escaped_name() + "z';"@,
{
    let mut keys = String::from_str("execute-keys '\"");
    keys.append(r.kak_escaped());
    keys.append("z'");
    proof {
        reveal_strlit("execute-keys '\"");
        reveal_strlit("z'");
        reveal_strlit("z';");
    }
    let out = cmd(keys.as_str());
    proof {
        assert(out@ =~= "execute-keys '\""@ + r.escaped_name() + "z';"@);
    }
    out
}

/// Each string, escaped, with a newline, in single quotes, after a space.
pub open spec fn quoted_lines(items: Seq<Seq<char>>) -> Seq<char>
    decreases items.len(),
{
    if items.len() == 0 {
        Seq::empty()
    } else {
        quoted_lines(items.drop_last()) + " '"@ + escaped(items.last() + seq!['\n']) + "'"@
    }
}

/// The commands that write the lines to a fresh scratch buffer, one selection
/// per line, and then run `keys` there.
pub open spec fn scratch_text(lines: Seq<Seq<char>>, keys: Seq<char>) -> Seq<char> {
    "evaluate-commands -save-regs '\"' %{ set-register '\"'"@ + quoted_lines(lines)
        + "; edit -scratch '*kakplugin-set*'; execute-keys '"@ + keys + "'; }"@
}

/// Writes lines of text to the scratch buffer that shows the result of a set
/// operation, then runs `keys` there.
pub fn scratch_command(lines: &Vec<String>, keys: &str) -> (r: String)
    ensures
        r@ == scratch_text(views(lines@), keys@),
{
    proof {
        reveal_strlit("evaluate-commands -save-regs '\"' %{ set-register '\"'");
        reveal_strlit("; edit -scratch '*kakplugin-set*'; execute-keys '");
        reveal_strlit("'; }");
        reveal_strlit(" '");
        reveal_strlit("'");
    }
    let mut out = String::from_str("evaluate-commands -save-regs '\"' %{ set-register '\"'");
    let mut k: usize = 0;
    let ghost head = out@;
    while k < lines.len()
        invariant
            k <= lines.len(),
            out@ == head + quoted_lines(views(lines@).subrange(0, k as int)),
        decreases lines.len() - k,
    {
        let ghost t = views(lines@).subrange(0, k + 1);
        proof {
            assert(t.drop_last() =~= views(lines@).subrange(0, k as int));
            assert(t.last() == lines@[k as int]@);
        }
        let mut line = lines[k].clone();
        line.append("\n");
        proof {
            reveal_strlit("\n");
            assert(line@ =~= lines@[k as int]@ + seq!['\n']);
        }
        let e = escape(line.as_str());
        proof {
            reveal_strlit(" '");
            reveal_strlit("'");
        }
        out.append(" '");
        out.append(e.as_str());
        out.append("'");
        proof {
            assert(out@ =~= head + quoted_lines(t));
        }
        k = k + 1;
    }
    proof {
        assert(views(lines@).subrange(0, lines@.len() as int) =~= views(lines@));
    }
    out.append("; edit -scratch '*kakplugin-set*'; execute-keys '");
    out.append(keys);
    out.append("'; }");
    proof {
        assert(out@ =~= scratch_text(views(lines@), keys@));
    }
    out
}

/// The command that asks the editor to write the value of `msg` to the reply
/// channel `response_fifo`, shell-quoted; with `keys`, after running those keys
/// in a draft context.
pub open spec fn response_text(msg: Seq<char>, keys: Option<Seq<char>>, response_fifo: Seq<char>) -> Seq<char> {
    match keys {
        None => "echo -quoting shell -to-file "@ + response_fifo + " -- "@ + msg + seq![';'],
        Some(k) => "evaluate-commands -draft %{ execute-keys '"@ + escaped(k)
            + "'; echo -quoting shell -to-file "@ + response_fifo + " -- "@ + msg + "; };"@,
    }
}

pub fn response_command(msg: &str, keys: Option<&str>, response_fifo: &str) -> (r: String)
    ensures
        r@ == response_text(
            msg@,
            match keys {
                Some(k) => Some(k@),
                None => None,
            },
            response_fifo@,
        ),
{
    proof {
        reveal_strlit("echo -quoting shell -to-file ");
        reveal_strlit(" -- ");
        reveal_strlit(";");
        reveal_strlit("evaluate-commands -draft %{ execute-keys '");
        reveal_strlit("'; echo -quoting shell -to-file ");
        reveal_strlit("; };");
    }
    match keys {
        None => {
            let mut out = String::from_str("echo -quoting shell -to-file ");
            out.append(response_fifo);
            out.append(" -- ");
            out.append(msg);
            out.append(";");
            out
        },
        Some(k) => {
            let mut out = String::from_str("evaluate-commands -draft %{ execute-keys '");
            let e = escape(k);
            out.append(e.as_str());
            out.append("'; echo -quoting shell -to-file ");
            out.append(response_fifo);
            out.append(" -- ");
            out.append(msg);
            out.append("; };");
            out
        },
    }
}

} // verus!
