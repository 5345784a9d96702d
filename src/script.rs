use vstd::prelude::*;

use crate::command::{commands_view, Command, CommandView};
use crate::error::JumpToLabelError;

verus! {

/// What the engine hands the driving loop at one step.
#[derive(Debug)]
pub enum ScriptControlFlow<'a> {
    /// Execute this command
    Execute(&'a Command),
    /// Execution has stopped: the position lies past the last command
    Stopped,
}

/// The label table of a command sequence: each `Label` maps its name to its index, a
/// later label overriding an earlier one of the same name.
pub open spec fn labels_of(cmds: Seq<CommandView>) -> Map<Seq<char>, usize>
    decreases cmds.len(),
{
    if cmds.len() == 0 {
        Map::empty()
    } else {
        let before = labels_of(cmds.drop_last());
        match cmds.last() {
            CommandView::Label(name) => before.insert(name, (cmds.len() - 1) as usize),
            _ => before,
        }
    }
}

/// The map that a list of `(name, index)` entries denotes, later entries overriding
/// earlier ones.
pub open spec fn table_map(t: Seq<(Seq<char>, usize)>) -> Map<Seq<char>, usize>
    decreases t.len(),
{
    if t.len() == 0 {
        Map::empty()
    } else {
        table_map(t.drop_last()).insert(t.last().0, t.last().1)
    }
}

pub open spec fn table_view(t: Seq<(String, usize)>) -> Seq<(Seq<char>, usize)> {
    t.map_values(|e: (String, usize)| (e.0@, e.1))
}

pub struct ScriptView {
    pub commands: Seq<CommandView>,
    pub labels: Map<Seq<char>, usize>,
    pub cursor: usize,
}

/// The command at position `i`, or `None` where execution stops.
pub open spec fn command_at(v: ScriptView, i: int) -> Option<CommandView> {
    if 0 <= i < v.commands.len() {
        Some(v.commands[i])
    } else {
        None
    }
}

pub open spec fn flow_view(f: ScriptControlFlow) -> Option<CommandView> {
    match f {
        ScriptControlFlow::Execute(c) => Some(c@),
        ScriptControlFlow::Stopped => None,
    }
}

/// A parsed command sequence with its label table and a cursor.
#[derive(Debug)]
pub struct Script {
    /// Labels for fast lookup (goto and jumps): `(name, index)`, later entries win
    labels: Vec<(String, usize)>,
    /// Script commands
    commands: Vec<Command>,
    /// Current script position
    cursor: usize,
}

impl View for Script {
    type V = ScriptView;

    closed spec fn view(&self) -> ScriptView {
        ScriptView {
            commands: commands_view(self.commands@),
            labels: table_map(table_view(self.labels@)),
            cursor: self.cursor,
        }
    }
}

proof fn lemma_table_lookup(t: Seq<(Seq<char>, usize)>, i: int, name: Seq<char>)
    requires
        0 <= i <= t.len(),
        forall|k: int| i <= k < t.len() ==> (#[trigger] t[k]).0 != name,
    ensures
        table_map(t).contains_key(name) == table_map(t.take(i)).contains_key(name),
        table_map(t).contains_key(name) ==> table_map(t)[name] == table_map(t.take(i))[name],
    decreases t.len() - i,
{
    if i < t.len() {
        assert(t.drop_last().take(i) =~= t.take(i));
        assert(t.last() == t[t.len() - 1]);
        assert forall|k: int| i <= k < t.drop_last().len() implies (
        #[trigger] t.drop_last()[k]).0 != name by {
            assert(t.drop_last()[k] == t[k]);
        }
        lemma_table_lookup(t.drop_last(), i, name);
    } else {
        assert(t.take(i) =~= t);
    }
}

impl Script {
    /// The command under the cursor, or `Stopped` past the end.
    pub fn peek(&self) -> (r: ScriptControlFlow<'_>)
        ensures
            flow_view(r) == command_at(self@, self@.cursor as int),
    {
        self.peek_from(self.cursor)
    }

    /// The command at `from`, or `Stopped` past the end.
    pub fn peek_from(&self, from: usize) -> (r: ScriptControlFlow<'_>)
        ensures
            flow_view(r) == command_at(self@, from as int),
    {
        if from < self.commands.len() {
            ScriptControlFlow::Execute(&self.commands[from])
        } else {
            ScriptControlFlow::Stopped
        }
    }

    /// Moves the cursor `acc` places on and returns where it was.
    pub fn advance_by(&mut self, acc: usize) -> (r: usize)
        requires
            old(self)@.cursor + acc <= usize::MAX,
        ensures
            r == old(self)@.cursor,
            final(self)@ == (ScriptView {
                cursor: (old(self)@.cursor + acc) as usize,
                ..old(self)@
            }),
    {
        let prev = self.cursor;
        self.cursor = self.cursor + acc;
        prev
    }

    /// The command under the cursor (or `Stopped`), moving the cursor one place on.
    pub fn next_command(&mut self) -> (r: ScriptControlFlow<'_>)
        requires
            old(self)@.cursor < usize::MAX,
        ensures
            flow_view(r) == command_at(old(self)@, old(self)@.cursor as int),
            final(self)@ == (ScriptView { cursor: (old(self)@.cursor + 1) as usize, ..old(self)@ }),
    {
        let prev_position = self.advance_by(1);
        self.peek_from(prev_position)
    }

    /// Moves the cursor to the position of `label`; an unknown label leaves it where it is.
    pub fn jump_to_label(&mut self, label: &str) -> (r: Result<(), JumpToLabelError>)
        ensures
            final(self)@.commands == old(self)@.commands,
            final(self)@.labels == old(self)@.labels,
            match r {
                Ok(()) => old(self)@.labels.contains_key(label@) && final(self)@.cursor
                    == old(self)@.labels[label@],
                Err(e) => !old(self)@.labels.contains_key(label@) && e
                    == JumpToLabelError::LabelNotFound && final(self)@.cursor == old(self)@.cursor,
            },
    {
        let ghost t = table_view(self.labels@);
        let wanted: String = label.to_owned();
        let mut i: usize = self.labels.len();
        while i > 0
            invariant
                *self == *old(self),
                t == table_view(self.labels@),
                wanted@ == label@,
                i <= self.labels@.len(),
                forall|k: int| i <= k < t.len() ==> (#[trigger] t[k]).0 != label@,
            decreases i,
        {
            let entry = &self.labels[i - 1];
            if entry.0 == wanted {
                proof {
                    assert(t[i - 1] == (entry.0@, entry.1));
                    lemma_table_lookup(t, i as int, label@);
                    assert(t.take(i as int).drop_last() =~= t.take(i - 1));
                    assert(t.take(i as int).last() == t[i - 1]);
                }
                let target = entry.1;
                self.adjust_cursor_to(target);
                return Ok(());
            }
            proof {
                assert(t[i - 1] == (entry.0@, entry.1));
            }
            i = i - 1;
        }
        proof {
            lemma_table_lookup(t, 0, label@);
            assert(t.take(0) =~= Seq::<(Seq<char>, usize)>::empty());
        }
        Err(JumpToLabelError::LabelNotFound)
    }

    /// The cursor position.
    pub fn cursor(&self) -> (r: usize)
        ensures
            r == self@.cursor,
    {
        self.cursor
    }

    /// Sets the cursor.
    pub fn adjust_cursor_to(&mut self, cursor: usize)
        ensures
            final(self)@ == (ScriptView { cursor, ..old(self)@ }),
    {
        self.cursor = cursor;
    }

    /// A script over `commands` with a label table supplied by the caller, taken as it
    /// is: later entries win, and nothing checks that the indices hold labels.
    pub fn with_labels(commands: Vec<Command>, labels: Vec<(String, usize)>) -> (r: Script)
        ensures
            r@.commands == commands_view(commands@),
            r@.labels == table_map(table_view(labels@)),
            r@.cursor == 0,
    {
        Script { labels, commands, cursor: 0 }
    }

    /// A script over `commands` with the cursor at the start.
    pub fn new(commands: Vec<Command>) -> (r: Script)
        ensures
            r@.commands == commands_view(commands@),
            r@.labels == labels_of(commands_view(commands@)),
            r@.cursor == 0,
    {
        let labels = Script::lookup_labels(&commands);
        Script { labels, commands, cursor: 0 }
    }

    fn lookup_labels(commands: &Vec<Command>) -> (r: Vec<(String, usize)>)
        ensures
            table_map(table_view(r@)) == labels_of(commands_view(commands@)),
    {
        let ghost cv = commands_view(commands@);
        let mut out: Vec<(String, usize)> = Vec::new();
        let mut i: usize = 0;
        assert(cv.take(0) =~= Seq::<CommandView>::empty());
        assert(table_view(out@) =~= Seq::<(Seq<char>, usize)>::empty());
        while i < commands.len()
            invariant
                cv == commands_view(commands@),
                i <= commands@.len(),
                table_map(table_view(out@)) == labels_of(cv.take(i as int)),
            decreases commands@.len() - i,
        {
            assert(cv.take(i + 1).drop_last() =~= cv.take(i as int));
            assert(cv.take(i + 1).last() == commands@[i as int]@);
            match &commands[i] {
                Command::Label(name) => {
                    let ghost before = out@;
                    out.push((name.clone(), i));
                    assert(table_view(out@).drop_last() =~= table_view(before));
                },
                _ => {},
            }
            i = i + 1;
        }
        assert(cv.take(i as int) =~= cv);
        out
    }
}

proof fn lemma_last_label_of(cmds: Seq<CommandView>, j: int, name: Seq<char>)
    requires
        0 <= j < cmds.len() <= usize::MAX,
        cmds[j] == CommandView::Label(name),
        forall|k: int| j < k < cmds.len() ==> #[trigger] cmds[k] != CommandView::Label(name),
    ensures
        labels_of(cmds).contains_key(name),
        labels_of(cmds)[name] == j,
    decreases cmds.len(),
{
    if cmds.len() > j + 1 {
        let rest = cmds.drop_last();
        assert forall|k: int| j < k < rest.len() implies #[trigger] rest[k] != CommandView::Label(
            name,
        ) by {
            assert(rest[k] == cmds[k]);
        }
        assert(cmds.last() == cmds[cmds.len() - 1]);
        lemma_last_label_of(rest, j, name);
    } else {
        assert(cmds.last() == cmds[j]);
    }
}

/// Of labels with the same name, the later one is where a jump to that name lands: the
/// label table of a script maps the name to the index of the last label of that name,
/// whatever labels of that name come before it.
pub proof fn lemma_later_label_wins(cmds: Seq<CommandView>, i: int, j: int, name: Seq<char>)
    requires
        0 <= i < j < cmds.len() <= usize::MAX,
        cmds[i] == CommandView::Label(name),
        cmds[j] == CommandView::Label(name),
        forall|k: int| j < k < cmds.len() ==> #[trigger] cmds[k] != CommandView::Label(name),
    ensures
        labels_of(cmds).contains_key(name),
        labels_of(cmds)[name] == j,
{
    lemma_last_label_of(cmds, j, name);
}

/// Taking the last command: at cursor `i` on a sequence of `i + 1` commands, the step
/// yields command `i` and moves the cursor to `i + 1`, where the script has stopped.
pub proof fn lemma_last_step_then_stopped(v: ScriptView)
    requires
        v.cursor < usize::MAX,
        v.cursor + 1 == v.commands.len(),
    ensures
        command_at(v, v.cursor as int) == Some(v.commands[v.cursor as int]),
        ({
            let after = ScriptView { cursor: (v.cursor + 1) as usize, ..v };
            after.cursor == v.cursor + 1 && command_at(after, after.cursor as int) is None
        }),
{
}

} // verus!
