//! The options that the engine announces, as one table that is made once.

use vstd::prelude::*;
use vstd::string::*;
use crate::text::{int_text, push_int};

verus! {

/// What kind of value an option takes, with its default.
#[derive(Clone, Copy, Debug)]
pub enum OptionKind {
    /// Free text.
    Text { default_text: &'static str },
    /// On or off.
    Check { default_on: bool },
    /// No value: a command to the engine.
    Button,
    /// A whole number between `min` and `max`.
    Spin { default_value: i32, min: i32, max: i32 },
    /// One of a few words.
    Combo { default_choice: &'static str },
}

/// One option of the engine.
#[derive(Clone, Copy, Debug)]
pub struct UciOption {
    pub name: &'static str,
    pub kind: OptionKind,
}

impl UciOption {
    /// A text option.
    pub fn text(name: &'static str, default: &'static str) -> (o: UciOption)
        ensures
            o == (UciOption { name, kind: OptionKind::Text { default_text: default } }),
    {
        UciOption { name, kind: OptionKind::Text { default_text: default } }
    }

    /// An on-off option.
    pub fn check(name: &'static str, default: bool) -> (o: UciOption)
        ensures
            o == (UciOption { name, kind: OptionKind::Check { default_on: default } }),
    {
        UciOption { name, kind: OptionKind::Check { default_on: default } }
    }

    /// A button.
    pub fn button(name: &'static str) -> (o: UciOption)
        ensures
            o == (UciOption { name, kind: OptionKind::Button }),
    {
        UciOption { name, kind: OptionKind::Button }
    }

    /// A number option.
    pub fn spin(name: &'static str, default: i32, min: i32, max: i32) -> (o: UciOption)
        ensures
            o == (UciOption { name, kind: OptionKind::Spin { default_value: default, min, max } }),
    {
        UciOption { name, kind: OptionKind::Spin { default_value: default, min, max } }
    }

    /// A choice option.
    pub fn combo(name: &'static str, default: &'static str) -> (o: UciOption)
        ensures
            o == (UciOption { name, kind: OptionKind::Combo { default_choice: default } }),
    {
        UciOption { name, kind: OptionKind::Combo { default_choice: default } }
    }
}

/// The options of the engine, in the order in which they are announced.
pub open spec fn option_table() -> Seq<UciOption> {
    seq![
        UciOption { name: "Debug Log File", kind: OptionKind::Text { default_text: "" } },
        UciOption { name: "Threads", kind: OptionKind::Spin { default_value: 1, min: 1, max: 1024 } },
        UciOption { name: "Hash", kind: OptionKind::Spin { default_value: 16, min: 1, max: 33554432 } },
        UciOption { name: "Clear Hash", kind: OptionKind::Button },
        UciOption { name: "Ponder", kind: OptionKind::Check { default_on: false } },
        UciOption { name: "MultiPV", kind: OptionKind::Spin { default_value: 1, min: 1, max: 500 } },
        UciOption { name: "Skill Level", kind: OptionKind::Spin { default_value: 20, min: 0, max: 20 } },
        UciOption {
            name: "Move Overhead",
            kind: OptionKind::Spin { default_value: 10, min: 0, max: 5000 },
        },
        UciOption { name: "Slow Mover", kind: OptionKind::Spin { default_value: 100, min: 10, max: 1000 } },
        UciOption { name: "nodestime", kind: OptionKind::Spin { default_value: 0, min: 0, max: 10000 } },
        UciOption { name: "UCI_Chess960", kind: OptionKind::Check { default_on: false } },
        UciOption { name: "UCI_AnalyseMode", kind: OptionKind::Check { default_on: false } },
        UciOption { name: "UCI_LimitStrength", kind: OptionKind::Check { default_on: false } },
        UciOption { name: "UCI_Elo", kind: OptionKind::Spin { default_value: 3190, min: 1320, max: 3190 } },
        UciOption { name: "UCI_ShowWDL", kind: OptionKind::Check { default_on: false } },
        UciOption { name: "SyzygyPath", kind: OptionKind::Text { default_text: "<empty>" } },
        UciOption {
            name: "SyzygyProbeDepth",
            kind: OptionKind::Spin { default_value: 1, min: 1, max: 100 },
        },
        UciOption { name: "Syzygy50MoveRule", kind: OptionKind::Check { default_on: true } },
        UciOption { name: "SyzygyProbeLimit", kind: OptionKind::Spin { default_value: 7, min: 0, max: 7 } },
        UciOption { name: "Use NNUE", kind: OptionKind::Check { default_on: true } },
        UciOption { name: "EvalFile", kind: OptionKind::Text { default_text: "nn-e1fb1ade4432.nnue" } },
    ]
}

/// No two options of the table have the same name.
pub proof fn lemma_option_names_differ()
    ensures
        forall|i: int, j: int|
            0 <= i < j < option_table().len() ==> (#[trigger] option_table()[i]).name@
                != (#[trigger] option_table()[j]).name@,
{
    reveal_strlit("Debug Log File");
    reveal_strlit("Threads");
    reveal_strlit("Hash");
    reveal_strlit("Clear Hash");
    reveal_strlit("Ponder");
    reveal_strlit("MultiPV");
    reveal_strlit("Skill Level");
    reveal_strlit("Move Overhead");
    reveal_strlit("Slow Mover");
    reveal_strlit("nodestime");
    reveal_strlit("UCI_Chess960");
    reveal_strlit("UCI_AnalyseMode");
    reveal_strlit("UCI_LimitStrength");
    reveal_strlit("UCI_Elo");
    reveal_strlit("UCI_ShowWDL");
    reveal_strlit("SyzygyPath");
    reveal_strlit("SyzygyProbeDepth");
    reveal_strlit("Syzygy50MoveRule");
    reveal_strlit("SyzygyProbeLimit");
    reveal_strlit("Use NNUE");
    reveal_strlit("EvalFile");
    let t = option_table();
    assert forall|i: int, j: int| 0 <= i < j < t.len() implies (#[trigger] t[i]).name@ != (
    #[trigger] t[j]).name@ by {
        let a = t[i].name@;
        let b = t[j].name@;
        assert(a.len() != b.len() || a[2] != b[2] || a[11] != b[11]);
    }
}

/// Makes the table of options.
pub fn uci_init() -> (m: Vec<UciOption>)
    ensures
        m@ == option_table(),
{
    let mut m: Vec<UciOption> = Vec::new();
    m.push(UciOption::text("Debug Log File", ""));
    m.push(UciOption::spin("Threads", 1, 1, 1024));
    m.push(UciOption::spin("Hash", 16, 1, 33554432));
    m.push(UciOption::button("Clear Hash"));
    m.push(UciOption::check("Ponder", false));
    m.push(UciOption::spin("MultiPV", 1, 1, 500));
    m.push(UciOption::spin("Skill Level", 20, 0, 20));
    m.push(UciOption::spin("Move Overhead", 10, 0, 5000));
    m.push(UciOption::spin("Slow Mover", 100, 10, 1000));
    m.push(UciOption::spin("nodestime", 0, 0, 10000));
    m.push(UciOption::check("UCI_Chess960", false));
    m.push(UciOption::check("UCI_AnalyseMode", false));
    m.push(UciOption::check("UCI_LimitStrength", false));
    m.push(UciOption::spin("UCI_Elo", 3190, 1320, 3190));
    m.push(UciOption::check("UCI_ShowWDL", false));
    m.push(UciOption::text("SyzygyPath", "<empty>"));
    m.push(UciOption::spin("SyzygyProbeDepth", 1, 1, 100));
    m.push(UciOption::check("Syzygy50MoveRule", true));
    m.push(UciOption::spin("SyzygyProbeLimit", 7, 0, 7));
    m.push(UciOption::check("Use NNUE", true));
    m.push(UciOption::text("EvalFile", "nn-e1fb1ade4432.nnue"));
    assert(m@ =~= option_table());
    m
}

/// The word for the kind of an option.
pub open spec fn kind_name(k: OptionKind) -> Seq<char> {
    match k {
        OptionKind::Text { .. } => "string"@,
        OptionKind::Check { .. } => "check"@,
        OptionKind::Button => "button"@,
        OptionKind::Spin { .. } => "spin"@,
        OptionKind::Combo { .. } => "combo"@,
    }
}

/// What follows the kind in the line that announces an option: the default,
/// and for a number its bounds; nothing for a button.
pub open spec fn kind_details(k: OptionKind) -> Seq<char> {
    match k {
        OptionKind::Text { default_text: default } => " default "@ + default@,
        OptionKind::Check { default_on: default } => " default "@ + if default {
            "true"@
        } else {
            "false"@
        },
        OptionKind::Button => Seq::empty(),
        OptionKind::Spin { default_value: default, min, max } => " default "@ + int_text(default as int)
            + " min "@ + int_text(min as int) + " max "@ + int_text(max as int),
        OptionKind::Combo { default_choice: default } => " default "@ + default@,
    }
}

/// The line that announces an option.
pub open spec fn option_text(o: UciOption) -> Seq<char> {
    "option name "@ + o.name@ + " type "@ + kind_name(o.kind) + kind_details(o.kind)
}

/// The line that announces an option.
pub fn option_line(o: &UciOption) -> (s: String)
    ensures
        s@ == option_text(*o),
{
    let mut s = String::new();
    s.append("option name ");
    s.append(o.name);
    s.append(" type ");
    match o.kind {
        OptionKind::Text { default_text: default } => {
            s.append("string");
            s.append(" default ");
            s.append(default);
        },
        OptionKind::Check { default_on: default } => {
            s.append("check");
            s.append(" default ");
            if default {
                s.append("true");
            } else {
                s.append("false");
            }
        },
        OptionKind::Button => {
            s.append("button");
        },
        OptionKind::Spin { default_value: default, min, max } => {
            s.append("spin");
            s.append(" default ");
            push_int(&mut s, default);
            s.append(" min ");
            push_int(&mut s, min);
            s.append(" max ");
            push_int(&mut s, max);
        },
        OptionKind::Combo { default_choice: default } => {
            s.append("combo");
            s.append(" default ");
            s.append(default);
        },
    }
    assert(s@ =~= option_text(*o));
    s
}

/// The line by which the engine introduces itself.
pub const ENGINE_NAME: &'static str = "id name stockfish-rust-anhphan";

/// The answer to `uci`: the name of the engine, one line for each option of
/// the table in its order, and `uciok`.
pub open spec fn uci_answer(options: Seq<UciOption>) -> Seq<Seq<char>> {
    seq![ENGINE_NAME@] + Seq::new(options.len(), |i: int| option_text(options[i])) + seq![
        "uciok"@,
    ]
}

/// The lines that answer `uci`.
pub fn handle_uci(options: &Vec<UciOption>) -> (lines: Vec<String>)
    ensures
        lines@.len() == options@.len() + 2,
        forall|i: int| 0 <= i < lines@.len() ==> (#[trigger] lines@[i])@ == uci_answer(options@)[i],
{
    let mut lines: Vec<String> = Vec::new();
    lines.push(String::from_str(ENGINE_NAME));
    let mut i: usize = 0;
    while i < options.len()
        invariant
            i <= options.len(),
            lines@.len() == i + 1,
            forall|k: int| 0 <= k < lines@.len() ==> (#[trigger] lines@[k])@ == uci_answer(
                options@,
            )[k],
        decreases options.len() - i,
    {
        let line = option_line(&options[i]);
        lines.push(line);
        i += 1;
    }
    lines.push(String::from_str("uciok"));
    lines
}

} // verus!
