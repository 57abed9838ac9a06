use vstd::prelude::*;
use crate::text::{
    append_chars, chars_of, drop_pieces, has_prefix, join, join_chars, part_of, pieces_view,
    pieces_without, same_text, split, split_chars, starts_with, string_of, tail_of, Text,
};

verus! {

/// Environment variables as a mathematical value: names with their
/// values, in the order in which the names were first set.
pub type Variables = Seq<(Text, Text)>;

/// The variables of `vars` as mathematical values.
pub open spec fn vars_view(vars: Vec<(String, String)>) -> Variables {
    Seq::new(vars@.len(), |i: int| (vars@[i].0@, vars@[i].1@))
}

/// The index of the variable `key` among `vars[from..]`, if it is there.
pub open spec fn index_from(vars: Variables, key: Text, from: int) -> Option<int>
    decreases vars.len() - from,
{
    if from < 0 || from >= vars.len() {
        None
    } else if vars[from].0 == key {
        Some(from)
    } else {
        index_from(vars, key, from + 1)
    }
}

/// The value of the variable `key`, if it is set.
pub open spec fn lookup(vars: Variables, key: Text) -> Option<Text> {
    match index_from(vars, key, 0) {
        Some(i) => Some(vars[i].1),
        None => None,
    }
}

/// `vars` with the variable `key` set to `value`: in its place where it
/// was set, at the end where it was not.
pub open spec fn assign(vars: Variables, key: Text, value: Text) -> Variables {
    match index_from(vars, key, 0) {
        Some(i) => vars.update(i, (key, value)),
        None => vars.push((key, value)),
    }
}

/// `vars` without the variable `key`.
pub open spec fn without_key(vars: Variables, key: Text) -> Variables {
    match index_from(vars, key, 0) {
        Some(i) => vars.remove(i),
        None => vars,
    }
}

/// `vars` with every variable of `more` set, in order.
pub open spec fn assign_all(vars: Variables, more: Variables) -> Variables
    decreases more.len(),
{
    if more.len() == 0 {
        vars
    } else {
        assign(assign_all(vars, more.drop_last()), more.last().0, more.last().1)
    }
}

/// No name occurs twice.
pub open spec fn keys_distinct(vars: Variables) -> bool {
    forall|i: int, j: int| 0 <= i < j < vars.len() ==> vars[i].0 != vars[j].0
}

/// Where `index_from` finds a name, and what it says where it finds none.
pub proof fn lemma_index_from(vars: Variables, key: Text, from: int)
    requires
        0 <= from,
    ensures
        match index_from(vars, key, from) {
            Some(i) => from <= i < vars.len() && vars[i].0 == key && forall|j: int|
                from <= j < i ==> vars[j].0 != key,
            None => forall|j: int| from <= j < vars.len() ==> vars[j].0 != key,
        },
    decreases vars.len() - from,
{
    if from < vars.len() && vars[from].0 != key {
        lemma_index_from(vars, key, from + 1);
    }
}

/// Setting a variable keeps the names distinct.
pub proof fn lemma_assign_distinct(vars: Variables, key: Text, value: Text)
    requires
        keys_distinct(vars),
    ensures
        keys_distinct(assign(vars, key, value)),
{
    lemma_index_from(vars, key, 0);
}

/// Removing a variable keeps the names distinct.
pub proof fn lemma_without_distinct(vars: Variables, key: Text)
    requires
        keys_distinct(vars),
    ensures
        keys_distinct(without_key(vars, key)),
{
    lemma_index_from(vars, key, 0);
    match index_from(vars, key, 0) {
        Some(i) => {
            let r = vars.remove(i);
            assert forall|a: int, b: int| 0 <= a < b < r.len() implies r[a].0 != r[b].0 by {
                let a0 = if a < i { a } else { a + 1 };
                let b0 = if b < i { b } else { b + 1 };
                assert(r[a] == vars[a0] && r[b] == vars[b0]);
            }
        },
        None => {},
    }
}

/// Whether a path starts at the root.
pub open spec fn is_absolute(path: Text) -> bool {
    path.len() > 0 && path[0] == '/'
}

/// The path `rel` taken from the directory `base`: `rel` itself where it
/// starts at the root or `base` is empty, else `base`, a slash unless
/// `base` ends in one, and `rel`.
pub open spec fn join_path(base: Text, rel: Text) -> Text {
    if is_absolute(rel) || base.len() == 0 {
        rel
    } else if base.last() == '/' {
        base + rel
    } else {
        base.push('/') + rel
    }
}

/// Whether a character of the Unicode classes of letters and numbers.
pub uninterp spec fn alphanumeric(c: char) -> bool;

/// `char::is_alphanumeric` says whether the character is a letter or a
/// number as Unicode classes them; the answer depends on the character
/// alone.
pub assume_specification[ char::is_alphanumeric ](c: char) -> (r: bool)
    ensures
        r == alphanumeric(c),
;

/// Whether `c` can stand in the name of a variable that is written
/// without braces.
pub open spec fn is_name_char(c: char) -> bool {
    alphanumeric(c) || c == '_'
}

/// The index at which the name that starts at `from` ends: the first
/// character at or after `from` that cannot stand in a name, or the end of
/// the text.
pub open spec fn name_end(text: Text, from: int) -> int
    decreases text.len() - from,
{
    if from < 0 || from >= text.len() || !is_name_char(text[from]) {
        from
    } else {
        name_end(text, from + 1)
    }
}

/// The index of the first closing brace at or after `from`, or the end of
/// the text.
pub open spec fn brace_end(text: Text, from: int) -> int
    decreases text.len() - from,
{
    if from < 0 || from >= text.len() || text[from] == '}' {
        from
    } else {
        brace_end(text, from + 1)
    }
}

/// The value of the variable `key`, or the empty text where it is not set.
pub open spec fn value_or_empty(vars: Variables, key: Text) -> Text {
    match lookup(vars, key) {
        Some(v) => v,
        None => Seq::empty(),
    }
}

/// The text `text[from..]` with every variable reference replaced by the
/// variable's value, or by nothing where the variable is not set. A
/// reference is a dollar sign followed by a name in braces, or by a name of
/// letters, numbers and underscores.
pub open spec fn expand_from(vars: Variables, text: Text, from: int) -> Text
    decreases text.len() - from,
{
    if from < 0 || from >= text.len() {
        Seq::empty()
    } else if text[from] == '$' {
        if from + 1 < text.len() && text[from + 1] == '{' {
            let end = brace_end(text, from + 2);
            if end >= from + 2 && end <= text.len() {
                value_or_empty(vars, text.subrange(from + 2, end)) + expand_from(
                    vars,
                    text,
                    if end < text.len() {
                        end + 1
                    } else {
                        end
                    },
                )
            } else {
                Seq::empty()
            }
        } else {
            let end = name_end(text, from + 1);
            if end >= from + 1 && end <= text.len() {
                value_or_empty(vars, text.subrange(from + 1, end)) + expand_from(vars, text, end)
            } else {
                Seq::empty()
            }
        }
    } else {
        seq![text[from]] + expand_from(vars, text, from + 1)
    }
}

/// The texts of `entries` that `marks` marks, in order: the entry at an
/// index is kept where `marks` holds `true` at that index.
pub open spec fn marked(entries: Seq<Text>, marks: Seq<bool>) -> Seq<Text>
    decreases entries.len(),
{
    if entries.len() == 0 {
        Seq::empty()
    } else if entries.len() - 1 < marks.len() && marks[entries.len() - 1] {
        marked(entries.drop_last(), marks).push(entries.last())
    } else {
        marked(entries.drop_last(), marks)
    }
}

/// The state of an environment manager as a mathematical value.
pub struct Environment {
    pub variables: Variables,
    pub working_directory: Text,
    pub home_directory: Text,
    pub path_separator: char,
    pub windows: bool,
}

pub open spec fn text_path() -> Text {
    seq!['P', 'A', 'T', 'H']
}

pub open spec fn text_pwd() -> Text {
    seq!['P', 'W', 'D']
}

impl Environment {
    /// `path` with a leading `~`, `$HOME` or `${HOME}` replaced by the
    /// home directory, or, where it begins with another `$`, with its
    /// variable references replaced.
    pub open spec fn expand_home(self, path: Text) -> Text {
        if starts_with(path, seq!['~', '/']) {
            join_path(self.home_directory, path.subrange(2, path.len() as int))
        } else if path == seq!['~'] {
            self.home_directory
        } else if starts_with(path, seq!['$', 'H', 'O', 'M', 'E', '/']) {
            join_path(self.home_directory, path.subrange(6, path.len() as int))
        } else if starts_with(path, seq!['$', '{', 'H', 'O', 'M', 'E', '}', '/']) {
            join_path(self.home_directory, path.subrange(8, path.len() as int))
        } else if starts_with(path, seq!['$']) {
            expand_from(self.variables, path, 0)
        } else {
            path
        }
    }

    /// The path that `path` stands for: expanded, and taken from the
    /// working directory where it does not start at the root.
    pub open spec fn expand_path(self, path: Text) -> Text {
        join_path(self.working_directory, self.expand_home(path))
    }

    /// The directories of the variable `PATH` that `is_directory` marks as
    /// existing directories, each expanded, in the order of `PATH`; an
    /// entry that occurs twice is kept twice, and one without a mark counts
    /// as no directory.
    pub open spec fn path_entries(self, is_directory: Seq<bool>) -> Seq<Text> {
        marked(self.path_candidates(), is_directory)
    }

    /// The entries of the variable `PATH`, each expanded, whether they
    /// exist or not; none where the variable is not set.
    pub open spec fn path_candidates(self) -> Seq<Text> {
        match lookup(self.variables, text_path()) {
            Some(value) => Seq::new(
                split(value, self.path_separator).len(),
                |i: int| self.expand_path(split(value, self.path_separator)[i]),
            ),
            None => Seq::empty(),
        }
    }

    /// The value of `PATH` after `path` was put in front of it.
    pub open spec fn path_with(self, path: Text) -> Text {
        match lookup(self.variables, text_path()) {
            Some(value) => path.push(self.path_separator) + value,
            None => path,
        }
    }

    /// The variables after every entry of `PATH` that is `path` was taken
    /// out of it; unchanged where `PATH` is not set.
    pub open spec fn vars_without_path(self, path: Text) -> Variables {
        match lookup(self.variables, text_path()) {
            Some(value) => assign(
                self.variables,
                text_path(),
                join(pieces_without(split(value, self.path_separator), path), self.path_separator),
            ),
            None => self.variables,
        }
    }
}

/// Why an operation on the environment failed.
#[derive(Clone, Copy, Debug, PartialEq, Eq, Structural)]
pub enum EnvironmentError {
    /// The directory does not exist, or is no directory.
    NotFound,
}

/// The environment that child processes are started with: variables, the
/// working directory, the home directory.
pub struct EnvironmentManager {
    pub(crate) variables: Vec<(String, String)>,
    pub(crate) working_directory: String,
    pub(crate) home_directory: String,
    pub(crate) path_separator: char,
    pub(crate) windows: bool,
}

/// The index of the variable `key` in `vars`; their number where it is
/// not set.
fn find_key(vars: &Vec<(String, String)>, key: &String) -> (at: usize)
    ensures
        at <= vars@.len(),
        at < vars@.len() ==> index_from(vars_view(*vars), key@, 0) == Some(at as int),
        at == vars@.len() ==> index_from(vars_view(*vars), key@, 0) is None,
{
    let mut i: usize = 0;
    while i < vars.len()
        invariant
            i <= vars@.len(),
            index_from(vars_view(*vars), key@, 0) == index_from(vars_view(*vars), key@, i as int),
        decreases vars@.len() - i,
    {
        if vars[i].0 == *key {
            return i;
        }
        i += 1;
    }
    i
}

/// Sets the variable `key` to `value` in `vars`.
fn put_variable(vars: &mut Vec<(String, String)>, key: String, value: String)
    requires
        keys_distinct(vars_view(*old(vars))),
    ensures
        keys_distinct(vars_view(*final(vars))),
        vars_view(*final(vars)) == assign(vars_view(*old(vars)), key@, value@),
{
    let ghost before = vars_view(*vars);
    let at = find_key(vars, &key);
    proof {
        lemma_assign_distinct(before, key@, value@);
    }
    if at < vars.len() {
        vars[at] = (key, value);
        assert(vars_view(*vars) =~= before.update(at as int, (key@, value@)));
    } else {
        vars.push((key, value));
        assert(vars_view(*vars) =~= before.push((key@, value@)));
    }
}

/// The value of the variable `key` in `vars`, as characters.
fn value_of(vars: &Vec<(String, String)>, key: &Vec<char>) -> (value: Option<Vec<char>>)
    ensures
        match value {
            Some(v) => lookup(vars_view(*vars), key@) == Some(v@),
            None => lookup(vars_view(*vars), key@) is None,
        },
{
    let name = string_of(key);
    let at = find_key(vars, &name);
    if at < vars.len() {
        Some(chars_of(vars[at].1.as_str()))
    } else {
        None
    }
}

/// Whether a path starts at the root, computed.
pub fn path_is_absolute(path: &Vec<char>) -> (r: bool)
    ensures
        r == is_absolute(path@),
{
    path.len() > 0 && path[0] == '/'
}

/// The path `rel` taken from the directory `base`, computed.
pub fn join_paths(base: &Vec<char>, rel: &Vec<char>) -> (path: Vec<char>)
    ensures
        path@ == join_path(base@, rel@),
{
    if path_is_absolute(rel) || base.len() == 0 {
        let r = tail_of(rel, 0);
        assert(r@ =~= rel@);
        r
    } else {
        let mut path = tail_of(base, 0);
        assert(path@ =~= base@);
        if base[base.len() - 1] != '/' {
            path.push('/');
        }
        append_chars(&mut path, rel);
        path
    }
}

/// Whether `c` can stand in a variable's name, computed.
fn name_char(c: char) -> (r: bool)
    ensures
        r == is_name_char(c),
{
    c.is_alphanumeric() || c == '_'
}

/// The end of the name that starts at `from`, computed.
fn find_name_end(text: &Vec<char>, from: usize) -> (end: usize)
    requires
        from <= text@.len(),
    ensures
        end == name_end(text@, from as int),
        from <= end <= text@.len(),
{
    let mut i: usize = from;
    while i < text.len() && name_char(text[i])
        invariant
            from <= i <= text@.len(),
            name_end(text@, from as int) == name_end(text@, i as int),
        decreases text@.len() - i,
    {
        i += 1;
    }
    i
}

/// The index of the first closing brace at or after `from`, computed.
fn find_brace_end(text: &Vec<char>, from: usize) -> (end: usize)
    requires
        from <= text@.len(),
    ensures
        end == brace_end(text@, from as int),
        from <= end <= text@.len(),
{
    let mut i: usize = from;
    while i < text.len() && text[i] != '}'
        invariant
            from <= i <= text@.len(),
            brace_end(text@, from as int) == brace_end(text@, i as int),
        decreases text@.len() - i,
    {
        i += 1;
    }
    i
}

/// `text` with its variable references replaced, computed.
fn expand_variables(vars: &Vec<(String, String)>, text: &Vec<char>) -> (out: Vec<char>)
    ensures
        out@ == expand_from(vars_view(*vars), text@, 0),
{
    let mut out: Vec<char> = Vec::new();
    let mut i: usize = 0;
    let n = text.len();
    assert(out@ + expand_from(vars_view(*vars), text@, 0) =~= expand_from(vars_view(*vars), text@, 0));
    while i < n
        invariant
            i <= n,
            n == text@.len(),
            out@ + expand_from(vars_view(*vars), text@, i as int) == expand_from(
                vars_view(*vars),
                text@,
                0,
            ),
        decreases n - i,
    {
        let ghost before = out@;
        let ghost rest = expand_from(vars_view(*vars), text@, i as int);
        if text[i] == '$' {
            let braced = i + 1 < n && text[i + 1] == '{';
            let start: usize = if braced { i + 2 } else { i + 1 };
            let end: usize = if braced { find_brace_end(text, start) } else { find_name_end(text, start) };
            let name = part_of(text, start, end);
            let next: usize = if braced && end < n { end + 1 } else { end };
            let ghost value = value_or_empty(vars_view(*vars), name@);
            assert(rest == value + expand_from(vars_view(*vars), text@, next as int));
            match value_of(vars, &name) {
                Some(v) => {
                    append_chars(&mut out, &v);
                },
                None => {
                    assert(out@ + value =~= out@);
                },
            }
            assert(out@ + expand_from(vars_view(*vars), text@, next as int) =~= before + rest);
            i = next;
        } else {
            out.push(text[i]);
            assert(out@ + expand_from(vars_view(*vars), text@, i + 1) =~= before + rest);
            i += 1;
        }
    }
    assert(out@ + Seq::<char>::empty() =~= out@);
    out
}

/// A copy of the variables `vars`.
fn copy_variables(vars: &Vec<(String, String)>) -> (copy: Vec<(String, String)>)
    ensures
        vars_view(copy) == vars_view(*vars),
{
    let mut copy: Vec<(String, String)> = Vec::new();
    let mut i: usize = 0;
    while i < vars.len()
        invariant
            i <= vars@.len(),
            copy@.len() == i,
            forall|j: int| 0 <= j < i ==> (#[trigger] copy@[j]).0@ == vars@[j].0@ && copy@[j].1@ == vars@[j].1@,
        decreases vars@.len() - i,
    {
        copy.push((vars[i].0.clone(), vars[i].1.clone()));
        i += 1;
    }
    assert(vars_view(copy) =~= vars_view(*vars));
    copy
}

/// The first of `candidates` that `usable` marks, in order.
pub open spec fn first_usable(candidates: Seq<Text>, usable: Seq<bool>, from: int) -> Option<Text>
    decreases candidates.len() - from,
{
    if from < 0 || from >= candidates.len() {
        None
    } else if from < usable.len() && usable[from] {
        Some(candidates[from])
    } else {
        first_usable(candidates, usable, from + 1)
    }
}

/// The texts of `texts`.
pub open spec fn strings_view(texts: Vec<String>) -> Seq<Text> {
    Seq::new(texts@.len(), |i: int| texts@[i]@)
}

/// The endings that are tried for the name of a program on Windows.
pub open spec fn windows_endings() -> Seq<Text> {
    seq![
        Seq::<char>::empty(),
        seq!['.', 'e', 'x', 'e'],
        seq!['.', 'b', 'a', 't'],
        seq!['.', 'c', 'm', 'd'],
        seq!['.', 'c', 'o', 'm'],
    ]
}

/// The places at which the program `name` may lie in the directory `dir`.
pub open spec fn candidates_in(dir: Text, name: Text, windows: bool) -> Seq<Text> {
    if windows {
        Seq::new(5, |k: int| join_path(dir, name + windows_endings()[k]))
    } else {
        seq![join_path(dir, name)]
    }
}

/// The places at which the program `name` may lie in the directories
/// `dirs`, in the order in which they are tried.
pub open spec fn candidates_among(dirs: Seq<Text>, name: Text, windows: bool) -> Seq<Text>
    decreases dirs.len(),
{
    if dirs.len() == 0 {
        Seq::empty()
    } else {
        candidates_among(dirs.drop_last(), name, windows) + candidates_in(dirs.last(), name, windows)
    }
}

impl Environment {
    /// Whether `name` names a path rather than a program to look for.
    pub open spec fn names_path(self, name: Text) -> bool {
        name.contains('/') || (self.windows && name.contains('\\'))
    }

    /// The places at which the program `name` may lie, in the order in
    /// which they are tried: the expanded path where `name` is a path, else
    /// its place in every directory of `PATH`.
    pub open spec fn executable_candidates(self, name: Text) -> Seq<Text> {
        if self.names_path(name) {
            seq![self.expand_path(name)]
        } else {
            candidates_among(self.path_candidates(), name, self.windows)
        }
    }

    /// The shell to start: the value of `SHELL`, or `/bin/bash`; on
    /// Windows the value of `COMSPEC`, or `cmd.exe`.
    pub open spec fn shell(self) -> Text {
        if self.windows {
            match lookup(self.variables, "COMSPEC"@) {
                Some(v) => v,
                None => "cmd.exe"@,
            }
        } else {
            match lookup(self.variables, "SHELL"@) {
                Some(v) => v,
                None => "/bin/bash"@,
            }
        }
    }

    /// The value of the first of the two variables that is set.
    pub open spec fn first_of(self, first: Text, second: Text) -> Option<Text> {
        match lookup(self.variables, first) {
            Some(v) => Some(v),
            None => lookup(self.variables, second),
        }
    }
}

/// `vars` with the variables set that every environment manager sets at
/// its start.
pub open spec fn with_terminal_variables(vars: Variables) -> Variables {
    assign(
        assign(
            assign(assign(vars, "TERM"@, "xterm-256color"@), "COLORTERM"@, "truecolor"@),
            "TERM_PROGRAM"@,
            "rt"@,
        ),
        "TERM_PROGRAM_VERSION"@,
        "0.1.0"@,
    )
}

/// Whether `text` holds the character `c`.
fn holds_char(text: &Vec<char>, c: char) -> (r: bool)
    ensures
        r == text@.contains(c),
{
    let mut i: usize = 0;
    while i < text.len()
        invariant
            i <= text@.len(),
            forall|j: int| 0 <= j < i ==> text@[j] != c,
        decreases text@.len() - i,
    {
        if text[i] == c {
            return true;
        }
        i += 1;
    }
    false
}

impl EnvironmentManager {
    /// The state of this manager as a mathematical value.
    pub open(crate) spec fn view(&self) -> Environment {
        Environment {
            variables: vars_view(self.variables),
            working_directory: self.working_directory@,
            home_directory: self.home_directory@,
            path_separator: self.path_separator,
            windows: self.windows,
        }
    }

    /// No variable is held twice.
    pub open spec fn wf(&self) -> bool {
        keys_distinct(self@.variables)
    }

    /// A manager that starts from the variables `inherited` (a name given
    /// twice keeps its last value), and then sets `TERM`, `COLORTERM`,
    /// `TERM_PROGRAM` and `TERM_PROGRAM_VERSION`. `windows` chooses the
    /// conventions of Windows: the semicolon between the entries of `PATH`
    /// in place of the colon, and its shell and program names.
    pub fn new(
        inherited: Vec<(String, String)>,
        working_directory: String,
        home_directory: String,
        windows: bool,
    ) -> (m: EnvironmentManager)
        ensures
            m.wf(),
            m@ == (Environment {
                variables: with_terminal_variables(
                    assign_all(Seq::empty(), vars_view(inherited)),
                ),
                working_directory: working_directory@,
                home_directory: home_directory@,
                path_separator: if windows {
                    ';'
                } else {
                    ':'
                },
                windows,
            }),
    {
        let mut m = EnvironmentManager {
            variables: Vec::new(),
            working_directory,
            home_directory,
            path_separator: if windows { ';' } else { ':' },
            windows,
        };
        assert(vars_view(m.variables) =~= Seq::empty());
        m.merge_from_subprocess(inherited);
        m.set_variable("TERM".to_owned(), "xterm-256color".to_owned());
        m.set_variable("COLORTERM".to_owned(), "truecolor".to_owned());
        m.set_variable("TERM_PROGRAM".to_owned(), "rt".to_owned());
        m.set_variable("TERM_PROGRAM_VERSION".to_owned(), "0.1.0".to_owned());
        m
    }

    /// Sets the variable `key` to `value`.
    pub fn set_variable(&mut self, key: String, value: String)
        requires
            old(self).wf(),
        ensures
            final(self).wf(),
            final(self)@ == (Environment {
                variables: assign(old(self)@.variables, key@, value@),
                ..old(self)@
            }),
    {
        put_variable(&mut self.variables, key, value);
    }

    /// The value of the variable `key`, if it is set.
    pub fn get_variable(&self, key: &str) -> (value: Option<&String>)
        ensures
            match value {
                Some(v) => lookup(self@.variables, key@) == Some(v@),
                None => lookup(self@.variables, key@) is None,
            },
    {
        let name = key.to_owned();
        let at = find_key(&self.variables, &name);
        if at < self.variables.len() {
            Some(&self.variables[at].1)
        } else {
            None
        }
    }

    /// Removes the variable `key`. Returns the value it had, if it was set.
    pub fn remove_variable(&mut self, key: &str) -> (value: Option<String>)
        requires
            old(self).wf(),
        ensures
            final(self).wf(),
            final(self)@ == (Environment {
                variables: without_key(old(self)@.variables, key@),
                ..old(self)@
            }),
            match value {
                Some(v) => lookup(old(self)@.variables, key@) == Some(v@),
                None => lookup(old(self)@.variables, key@) is None,
            },
    {
        let ghost before = self@.variables;
        let name = key.to_owned();
        let at = find_key(&self.variables, &name);
        proof {
            lemma_without_distinct(before, key@);
        }
        if at < self.variables.len() {
            let pair = self.variables.remove(at);
            assert(vars_view(self.variables) =~= before.remove(at as int));
            Some(pair.1)
        } else {
            None
        }
    }

    /// Makes `path` the working directory and sets `PWD` to it.
    /// `is_directory` says whether `path` was found to be a directory: where
    /// it was not, nothing changes and the error says so.
    pub fn set_working_directory(&mut self, path: String, is_directory: bool) -> (r: Result<
        (),
        EnvironmentError,
    >)
        requires
            old(self).wf(),
        ensures
            final(self).wf(),
            is_directory ==> r is Ok && final(self)@ == (Environment {
                variables: assign(old(self)@.variables, "PWD"@, path@),
                working_directory: path@,
                ..old(self)@
            }),
            !is_directory ==> r == Err::<(), EnvironmentError>(EnvironmentError::NotFound)
                && final(self)@ == old(self)@,
    {
        if is_directory {
            self.working_directory = path.clone();
            put_variable(&mut self.variables, "PWD".to_owned(), path);
            Ok(())
        } else {
            Err(EnvironmentError::NotFound)
        }
    }

    /// The working directory.
    pub fn get_working_directory(&self) -> (path: &String)
        ensures
            path@ == self@.working_directory,
    {
        &self.working_directory
    }

    /// The home directory.
    pub fn get_home_directory(&self) -> (path: &String)
        ensures
            path@ == self@.home_directory,
    {
        &self.home_directory
    }

    /// The character between the entries of `PATH`.
    pub fn get_path_separator(&self) -> (sep: char)
        ensures
            sep == self@.path_separator,
    {
        self.path_separator
    }

    /// `path` as characters, expanded and taken from the working
    /// directory.
    fn expand_chars(&self, path: &Vec<char>) -> (expanded: Vec<char>)
        ensures
            expanded@ == self@.expand_path(path@),
    {
        let home = chars_of(self.home_directory.as_str());
        let wd = chars_of(self.working_directory.as_str());
        let tilde_slash: Vec<char> = vec!['~', '/'];
        let tilde: Vec<char> = vec!['~'];
        let home_slash: Vec<char> = vec!['$', 'H', 'O', 'M', 'E', '/'];
        let braced_home: Vec<char> = vec!['$', '{', 'H', 'O', 'M', 'E', '}', '/'];
        let dollar: Vec<char> = vec!['$'];
        assert(tilde_slash@ =~= seq!['~', '/']);
        assert(tilde@ =~= seq!['~']);
        assert(home_slash@ =~= seq!['$', 'H', 'O', 'M', 'E', '/']);
        assert(braced_home@ =~= seq!['$', '{', 'H', 'O', 'M', 'E', '}', '/']);
        assert(dollar@ =~= seq!['$']);
        let inner: Vec<char> = if has_prefix(path, &tilde_slash) {
            join_paths(&home, &tail_of(path, 2))
        } else if same_text(path, &tilde) {
            home
        } else if has_prefix(path, &home_slash) {
            join_paths(&home, &tail_of(path, 6))
        } else if has_prefix(path, &braced_home) {
            join_paths(&home, &tail_of(path, 8))
        } else if has_prefix(path, &dollar) {
            expand_variables(&self.variables, path)
        } else {
            let same = tail_of(path, 0);
            assert(same@ =~= path@);
            same
        };
        join_paths(&wd, &inner)
    }

    /// The path that `path` stands for. A leading `~`, `$HOME` or
    /// `${HOME}` gives the home directory; in a path that begins with
    /// another `$`, variable references give the variables' values; a path
    /// that does not start at the root is taken from the working directory.
    pub fn expand_path(&self, path: &str) -> (expanded: String)
        ensures
            expanded@ == self@.expand_path(path@),
    {
        let chars = chars_of(path);
        string_of(&self.expand_chars(&chars))
    }

    /// The directories of `PATH`: those of its entries, each expanded,
    /// that `is_directory` marks as existing directories, in the order of
    /// `PATH`. The marks stand for the entries as `path_candidates` gives
    /// them; an entry without a mark counts as no directory. Nothing is
    /// returned where `PATH` is not set.
    pub fn get_path_entries(&self, is_directory: &Vec<bool>) -> (entries: Vec<String>)
        ensures
            strings_view(entries) == self@.path_entries(is_directory@),
    {
        let all = self.path_candidates();
        let mut entries: Vec<String> = Vec::new();
        let mut i: usize = 0;
        assert(strings_view(all).subrange(0, 0) =~= Seq::<Text>::empty());
        assert(strings_view(entries) =~= Seq::<Text>::empty());
        while i < all.len()
            invariant
                i <= all@.len(),
                strings_view(entries) == marked(strings_view(all).subrange(0, i as int), is_directory@),
            decreases all@.len() - i,
        {
            let ghost upto = strings_view(all).subrange(0, i + 1);
            let ghost before = strings_view(entries);
            assert(upto.drop_last() =~= strings_view(all).subrange(0, i as int));
            assert(upto.last() == all@[i as int]@);
            if i < is_directory.len() && is_directory[i] {
                entries.push(all[i].clone());
                assert(strings_view(entries) =~= before.push(all@[i as int]@));
            }
            i += 1;
        }
        assert(strings_view(all).subrange(0, all@.len() as int) =~= strings_view(all));
        entries
    }

    /// The entries of `PATH`, each expanded, in order, whether they exist
    /// or not; none where `PATH` is not set.
    pub fn path_candidates(&self) -> (entries: Vec<String>)
        ensures
            strings_view(entries) == self@.path_candidates(),
    {
        let key: Vec<char> = vec!['P', 'A', 'T', 'H'];
        assert(key@ =~= text_path());
        let mut entries: Vec<String> = Vec::new();
        match value_of(&self.variables, &key) {
            Some(value) => {
                let pieces = split_chars(&value, self.path_separator);
                let mut i: usize = 0;
                while i < pieces.len()
                    invariant
                        i <= pieces@.len(),
                        entries@.len() == i,
                        forall|j: int| 0 <= j < i ==> (#[trigger] entries@[j])@ == self@.expand_path(pieces@[j]@),
                    decreases pieces@.len() - i,
                {
                    entries.push(string_of(&self.expand_chars(&pieces[i])));
                    i += 1;
                }
                assert(strings_view(entries) =~= self@.path_candidates());
            },
            None => {
                assert(strings_view(entries) =~= self@.path_candidates());
            },
        }
        entries
    }

    /// Puts `path` in front of `PATH`.
    pub fn add_to_path(&mut self, path: &str)
        requires
            old(self).wf(),
        ensures
            final(self).wf(),
            final(self)@ == (Environment {
                variables: assign(old(self)@.variables, text_path(), old(self)@.path_with(path@)),
                ..old(self)@
            }),
    {
        let key: Vec<char> = vec!['P', 'A', 'T', 'H'];
        assert(key@ =~= text_path());
        let mut value = chars_of(path);
        match value_of(&self.variables, &key) {
            Some(current) => {
                value.push(self.path_separator);
                append_chars(&mut value, &current);
            },
            None => {},
        }
        put_variable(&mut self.variables, string_of(&key), string_of(&value));
    }

    /// Takes every entry that is `path` out of `PATH`.
    pub fn remove_from_path(&mut self, path: &str)
        requires
            old(self).wf(),
        ensures
            final(self).wf(),
            final(self)@ == (Environment {
                variables: old(self)@.vars_without_path(path@),
                ..old(self)@
            }),
    {
        let key: Vec<char> = vec!['P', 'A', 'T', 'H'];
        assert(key@ =~= text_path());
        let unwanted = chars_of(path);
        match value_of(&self.variables, &key) {
            Some(current) => {
                let pieces = split_chars(&current, self.path_separator);
                let kept = drop_pieces(pieces, &unwanted);
                let value = join_chars(&kept, self.path_separator);
                put_variable(&mut self.variables, string_of(&key), string_of(&value));
            },
            None => {},
        }
    }

    /// The variables for a child process: a copy of all of them.
    pub fn export_for_subprocess(&self) -> (vars: Vec<(String, String)>)
        ensures
            vars_view(vars) == self@.variables,
    {
        copy_variables(&self.variables)
    }

    /// Sets every variable of `env_vars`, in order.
    pub fn merge_from_subprocess(&mut self, env_vars: Vec<(String, String)>)
        requires
            old(self).wf(),
        ensures
            final(self).wf(),
            final(self)@ == (Environment {
                variables: assign_all(old(self)@.variables, vars_view(env_vars)),
                ..old(self)@
            }),
    {
        let ghost before = self@;
        let mut i: usize = 0;
        assert(vars_view(env_vars).subrange(0, 0) =~= Seq::<(Text, Text)>::empty());
        while i < env_vars.len()
            invariant
                i <= env_vars@.len(),
                self.wf(),
                self@ == (Environment {
                    variables: assign_all(before.variables, vars_view(env_vars).subrange(0, i as int)),
                    ..before
                }),
            decreases env_vars@.len() - i,
        {
            let ghost upto = vars_view(env_vars).subrange(0, i + 1);
            assert(upto.drop_last() =~= vars_view(env_vars).subrange(0, i as int));
            assert(upto.last() == (env_vars@[i as int].0@, env_vars@[i as int].1@));
            put_variable(&mut self.variables, env_vars[i].0.clone(), env_vars[i].1.clone());
            i += 1;
        }
        assert(vars_view(env_vars).subrange(0, env_vars@.len() as int) =~= vars_view(env_vars));
    }

    /// The value of the variable `key`, or `fallback` where it is not set.
    fn variable_or(&self, key: &str, fallback: &str) -> (value: String)
        ensures
            value@ == (match lookup(self@.variables, key@) {
                Some(v) => v,
                None => fallback@,
            }),
    {
        match self.get_variable(key) {
            Some(v) => v.clone(),
            None => fallback.to_owned(),
        }
    }

    /// The shell to start.
    pub fn get_shell(&self) -> (shell: String)
        ensures
            shell@ == self@.shell(),
    {
        if self.windows {
            self.variable_or("COMSPEC", "cmd.exe")
        } else {
            self.variable_or("SHELL", "/bin/bash")
        }
    }

    /// The value of `first`, or else of `second`, if one of them is set.
    fn first_set(&self, first: &str, second: &str) -> (value: Option<String>)
        ensures
            match value {
                Some(v) => self@.first_of(first@, second@) == Some(v@),
                None => self@.first_of(first@, second@) is None,
            },
    {
        match self.get_variable(first) {
            Some(v) => Some(v.clone()),
            None => match self.get_variable(second) {
                Some(v) => Some(v.clone()),
                None => None,
            },
        }
    }

    /// The user's name: the value of `USER`, or else of `USERNAME`.
    pub fn get_user(&self) -> (user: Option<String>)
        ensures
            match user {
                Some(v) => self@.first_of("USER"@, "USERNAME"@) == Some(v@),
                None => self@.first_of("USER"@, "USERNAME"@) is None,
            },
    {
        self.first_set("USER", "USERNAME")
    }

    /// The host's name: the value of `HOSTNAME`, or else of
    /// `COMPUTERNAME`.
    pub fn get_hostname(&self) -> (host: Option<String>)
        ensures
            match host {
                Some(v) => self@.first_of("HOSTNAME"@, "COMPUTERNAME"@) == Some(v@),
                None => self@.first_of("HOSTNAME"@, "COMPUTERNAME"@) is None,
            },
    {
        self.first_set("HOSTNAME", "COMPUTERNAME")
    }

    /// All variables with their values, in the order in which they were
    /// first set.
    pub fn list_variables(&self) -> (vars: Vec<(String, String)>)
        ensures
            vars_view(vars) == self@.variables,
    {
        copy_variables(&self.variables)
    }

    /// Removes every variable.
    pub fn clear_variables(&mut self)
        requires
            old(self).wf(),
        ensures
            final(self).wf(),
            final(self)@ == (Environment { variables: Seq::empty(), ..old(self)@ }),
    {
        self.variables.clear();
        assert(vars_view(self.variables) =~= Seq::empty());
    }
}

/// The place of the program `name` with the ending `ending` in `dir`.
fn candidate(dir: &Vec<char>, name: &Vec<char>, ending: &Vec<char>) -> (place: String)
    ensures
        place@ == join_path(dir@, name@ + ending@),
{
    let mut file = tail_of(name, 0);
    assert(file@ =~= name@);
    append_chars(&mut file, ending);
    string_of(&join_paths(dir, &file))
}

/// Appends the places at which the program `name` may lie in `dir`.
fn push_candidates(out: &mut Vec<String>, dir: &Vec<char>, name: &Vec<char>, windows: bool)
    ensures
        strings_view(*final(out)) == strings_view(*old(out)) + candidates_in(dir@, name@, windows),
{
    let ghost before = strings_view(*out);
    let none: Vec<char> = Vec::new();
    assert(name@ + none@ =~= name@);
    if windows {
        let exe: Vec<char> = vec!['.', 'e', 'x', 'e'];
        let bat: Vec<char> = vec!['.', 'b', 'a', 't'];
        let cmd: Vec<char> = vec!['.', 'c', 'm', 'd'];
        let com: Vec<char> = vec!['.', 'c', 'o', 'm'];
        assert(none@ =~= windows_endings()[0]);
        assert(exe@ =~= windows_endings()[1]);
        assert(bat@ =~= windows_endings()[2]);
        assert(cmd@ =~= windows_endings()[3]);
        assert(com@ =~= windows_endings()[4]);
        out.push(candidate(dir, name, &none));
        out.push(candidate(dir, name, &exe));
        out.push(candidate(dir, name, &bat));
        out.push(candidate(dir, name, &cmd));
        out.push(candidate(dir, name, &com));
        assert(strings_view(*out) =~= before + candidates_in(dir@, name@, windows));
    } else {
        out.push(candidate(dir, name, &none));
        assert(strings_view(*out) =~= before + candidates_in(dir@, name@, windows));
    }
}

impl EnvironmentManager {
    /// The places at which the program `name` may lie, in the order in
    /// which they are to be tried. A name with a slash is a path and gives
    /// one place, its expansion; another name gives its place in every
    /// directory of `PATH`, on Windows with each of the endings of programs.
    pub fn executable_candidates(&self, name: &str) -> (places: Vec<String>)
        ensures
            strings_view(places) == self@.executable_candidates(name@),
    {
        let chars = chars_of(name);
        let mut places: Vec<String> = Vec::new();
        if holds_char(&chars, '/') || (self.windows && holds_char(&chars, '\\')) {
            places.push(string_of(&self.expand_chars(&chars)));
            assert(strings_view(places) =~= seq![self@.expand_path(name@)]);
        } else {
            let dirs = self.path_candidates();
            let mut i: usize = 0;
            assert(strings_view(dirs).subrange(0, 0) =~= Seq::<Text>::empty());
            assert(strings_view(places) =~= Seq::<Text>::empty());
            while i < dirs.len()
                invariant
                    i <= dirs@.len(),
                    chars@ == name@,
                    strings_view(places) == candidates_among(
                        strings_view(dirs).subrange(0, i as int),
                        name@,
                        self.windows,
                    ),
                decreases dirs@.len() - i,
            {
                let ghost upto = strings_view(dirs).subrange(0, i + 1);
                assert(upto.drop_last() =~= strings_view(dirs).subrange(0, i as int));
                assert(upto.last() == dirs@[i as int]@);
                let dir = chars_of(dirs[i].as_str());
                push_candidates(&mut places, &dir, &chars, self.windows);
                i += 1;
            }
            assert(strings_view(dirs).subrange(0, dirs@.len() as int) =~= strings_view(dirs));
        }
        places
    }

    /// The program `name`: the first of its places, as
    /// `executable_candidates` gives them, that `usable` marks as an
    /// existing program that may be run; nothing where none is marked. A
    /// place without a mark counts as not usable.
    pub fn find_executable(&self, name: &str, usable: &Vec<bool>) -> (found: Option<String>)
        ensures
            match found {
                Some(p) => first_usable(self@.executable_candidates(name@), usable@, 0) == Some(p@),
                None => first_usable(self@.executable_candidates(name@), usable@, 0) is None,
            },
    {
        let places = self.executable_candidates(name);
        let mut i: usize = 0;
        while i < places.len()
            invariant
                i <= places@.len(),
                strings_view(places) == self@.executable_candidates(name@),
                first_usable(strings_view(places), usable@, 0) == first_usable(
                    strings_view(places),
                    usable@,
                    i as int,
                ),
            decreases places@.len() - i,
        {
            if i < usable.len() && usable[i] {
                return Some(places[i].clone());
            }
            i += 1;
        }
        None
    }
}

/// Whether a character is white space: a tab, a line feed, a vertical
/// tab, a form feed, a carriage return, a space, the next-line control, a
/// no-break space, or one of the spaces and separators of the general
/// punctuation and of the ideographic block.
pub open spec fn whitespace(c: char) -> bool {
    ||| '\u{9}' <= c <= '\u{d}'
    ||| c == ' '
    ||| c == '\u{85}'
    ||| c == '\u{a0}'
    ||| c == '\u{1680}'
    ||| '\u{2000}' <= c <= '\u{200a}'
    ||| c == '\u{2028}'
    ||| c == '\u{2029}'
    ||| c == '\u{202f}'
    ||| c == '\u{205f}'
    ||| c == '\u{3000}'
}

/// Whether a character is white space, computed.
pub fn is_white_space(c: char) -> (r: bool)
    ensures
        r == whitespace(c),
{
    ('\u{9}' <= c && c <= '\u{d}') || c == ' ' || c == '\u{85}' || c == '\u{a0}' || c
        == '\u{1680}' || ('\u{2000}' <= c && c <= '\u{200a}') || c == '\u{2028}' || c
        == '\u{2029}' || c == '\u{202f}' || c == '\u{205f}' || c == '\u{3000}'
}

/// The number of leading white space characters of `text[from..]`.
pub open spec fn leading_space(text: Text, from: int) -> int
    decreases text.len() - from,
{
    if from < 0 || from >= text.len() || !whitespace(text[from]) {
        0
    } else {
        1 + leading_space(text, from + 1)
    }
}

/// The number of trailing white space characters of `text[..upto]`.
pub open spec fn trailing_space(text: Text, upto: int) -> int
    decreases upto,
{
    if upto <= 0 || upto > text.len() || !whitespace(text[upto - 1]) {
        0
    } else {
        1 + trailing_space(text, upto - 1)
    }
}

/// `text` without its leading and trailing white space.
pub open spec fn trimmed(text: Text) -> Text {
    let start = leading_space(text, 0);
    if start >= text.len() {
        Seq::empty()
    } else {
        text.subrange(start, text.len() - trailing_space(text, text.len() as int))
    }
}

/// The index of the first `c` among `text[from..]`, or the length of
/// `text` where there is none.
pub open spec fn first_char(text: Text, c: char, from: int) -> int
    decreases text.len() - from,
{
    if from < 0 || from >= text.len() {
        text.len() as int
    } else if text[from] == c {
        from
    } else {
        first_char(text, c, from + 1)
    }
}

/// `value` without the pair of double or single quotes around it, if it
/// has one.
pub open spec fn unquoted(value: Text) -> Text {
    if value.len() >= 2 && ((value[0] == '"' && value.last() == '"') || (value[0] == '\''
        && value.last() == '\'')) {
        value.subrange(1, value.len() - 1)
    } else {
        value
    }
}

/// The variable that one line of an environment file sets, if it sets
/// one: a line that is empty, begins with `#` or holds no `=` sets none;
/// any other line sets the name before its first `=` to the value after
/// it, both without white space around them, the value without quotes
/// around it.
pub open spec fn parsed_line(line: Text) -> Option<(Text, Text)> {
    let l = trimmed(line);
    let eq = first_char(l, '=', 0);
    if l.len() == 0 || l[0] == '#' || eq >= l.len() {
        None
    } else {
        Some((trimmed(l.subrange(0, eq)), unquoted(trimmed(l.subrange(eq + 1, l.len() as int)))))
    }
}

/// `vars` after the lines `lines` of an environment file were read, in
/// order.
pub open spec fn loaded(vars: Variables, lines: Seq<Text>) -> Variables
    decreases lines.len(),
{
    if lines.len() == 0 {
        vars
    } else {
        let before = loaded(vars, lines.drop_last());
        match parsed_line(lines.last()) {
            Some((key, value)) => assign(before, key, value),
            None => before,
        }
    }
}

/// `text` without its leading and trailing white space, computed.
pub fn trim_chars(text: &Vec<char>) -> (r: Vec<char>)
    ensures
        r@ == trimmed(text@),
{
    let n = text.len();
    let mut start: usize = 0;
    while start < n && is_white_space(text[start])
        invariant
            start <= n,
            n == text@.len(),
            leading_space(text@, 0) == start + leading_space(text@, start as int),
        decreases n - start,
    {
        start += 1;
    }
    if start >= n {
        return Vec::new();
    }
    let mut end: usize = n;
    while end > start && is_white_space(text[end - 1])
        invariant
            start < end <= n,
            n == text@.len(),
            !whitespace(text@[start as int]),
            trailing_space(text@, n as int) == (n - end) + trailing_space(text@, end as int),
        decreases end,
    {
        end -= 1;
    }
    part_of(text, start, end)
}

/// The index of the first `c` in `text`, or its length, computed.
fn find_char(text: &Vec<char>, c: char) -> (at: usize)
    ensures
        at == first_char(text@, c, 0),
        at <= text@.len(),
{
    let mut i: usize = 0;
    while i < text.len() && text[i] != c
        invariant
            i <= text@.len(),
            first_char(text@, c, 0) == first_char(text@, c, i as int),
        decreases text@.len() - i,
    {
        i += 1;
    }
    i
}

/// `value` without the quotes around it, computed.
fn unquote(value: Vec<char>) -> (r: Vec<char>)
    ensures
        r@ == unquoted(value@),
{
    let n = value.len();
    if n >= 2 && ((value[0] == '"' && value[n - 1] == '"') || (value[0] == '\'' && value[n - 1]
        == '\'')) {
        part_of(&value, 1, n - 1)
    } else {
        value
    }
}

/// The variable that one line of an environment file sets, computed.
pub fn parse_line(line: &Vec<char>) -> (r: Option<(Vec<char>, Vec<char>)>)
    ensures
        match r {
            Some((key, value)) => parsed_line(line@) == Some((key@, value@)),
            None => parsed_line(line@) is None,
        },
{
    let l = trim_chars(line);
    if l.len() == 0 || l[0] == '#' {
        return None;
    }
    let eq = find_char(&l, '=');
    if eq >= l.len() {
        return None;
    }
    let key = trim_chars(&part_of(&l, 0, eq));
    let value = unquote(trim_chars(&tail_of(&l, eq + 1)));
    Some((key, value))
}

/// Whether `a` comes before `b` in the order of texts: character by
/// character, a text before every text that it begins.
pub open spec fn text_before(a: Text, b: Text, from: int) -> bool
    decreases a.len() - from,
{
    if from < 0 || from >= b.len() {
        false
    } else if from >= a.len() {
        true
    } else if a[from] != b[from] {
        a[from] < b[from]
    } else {
        text_before(a, b, from + 1)
    }
}

/// The index in `sorted` before which a variable named `key` goes: that
/// of the first variable whose name comes after `key`, or the length.
pub open spec fn slot_for(sorted: Variables, key: Text, from: int) -> int
    decreases sorted.len() - from,
{
    if from < 0 || from >= sorted.len() {
        sorted.len() as int
    } else if text_before(key, sorted[from].0, 0) {
        from
    } else {
        slot_for(sorted, key, from + 1)
    }
}

/// The variables of `vars` in the order of their names.
pub open spec fn by_name(vars: Variables) -> Variables
    decreases vars.len(),
{
    if vars.len() == 0 {
        Seq::empty()
    } else {
        let sorted = by_name(vars.drop_last());
        sorted.insert(slot_for(sorted, vars.last().0, 0), vars.last())
    }
}

/// Whether a value is written in quotes: it holds a space, a tab, a line
/// feed or a double quote.
pub open spec fn needs_quotes(value: Text) -> bool {
    value.contains(' ') || value.contains('\t') || value.contains('\n') || value.contains('"')
}

/// `value` with a backslash before every double quote.
pub open spec fn escaped(value: Text) -> Text
    decreases value.len(),
{
    if value.len() == 0 {
        Seq::empty()
    } else if value.last() == '"' {
        escaped(value.drop_last()).push('\\').push('"')
    } else {
        escaped(value.drop_last()).push(value.last())
    }
}

/// The line of an environment file that sets `key` to `value`.
pub open spec fn written_line(key: Text, value: Text) -> Text {
    if needs_quotes(value) {
        (key.push('=').push('"') + escaped(value)).push('"').push('\n')
    } else {
        (key.push('=') + value).push('\n')
    }
}

/// The lines of an environment file that set the variables `vars`, in
/// their order.
pub open spec fn written(vars: Variables) -> Text
    decreases vars.len(),
{
    if vars.len() == 0 {
        Seq::empty()
    } else {
        written(vars.drop_last()) + written_line(vars.last().0, vars.last().1)
    }
}

/// Whether `a` comes before `b` in the order of texts, computed.
fn comes_before(a: &Vec<char>, b: &Vec<char>) -> (r: bool)
    ensures
        r == text_before(a@, b@, 0),
{
    let mut i: usize = 0;
    while i < a.len() && i < b.len()
        invariant
            i <= a@.len(),
            i <= b@.len(),
            text_before(a@, b@, 0) == text_before(a@, b@, i as int),
        decreases a@.len() - i,
    {
        if a[i] != b[i] {
            return a[i] < b[i];
        }
        i += 1;
    }
    i < b.len()
}

/// The variables as pairs of character vectors.
pub open spec fn pairs_view(pairs: Vec<(Vec<char>, Vec<char>)>) -> Variables {
    Seq::new(pairs@.len(), |i: int| (pairs@[i].0@, pairs@[i].1@))
}

/// The variables of `vars` in the order of their names, computed.
fn sort_by_name(vars: &Vec<(String, String)>) -> (sorted: Vec<(Vec<char>, Vec<char>)>)
    ensures
        pairs_view(sorted) == by_name(vars_view(*vars)),
{
    let mut sorted: Vec<(Vec<char>, Vec<char>)> = Vec::new();
    let mut i: usize = 0;
    assert(vars_view(*vars).subrange(0, 0) =~= Seq::<(Text, Text)>::empty());
    assert(pairs_view(sorted) =~= Seq::<(Text, Text)>::empty());
    while i < vars.len()
        invariant
            i <= vars@.len(),
            pairs_view(sorted) == by_name(vars_view(*vars).subrange(0, i as int)),
        decreases vars@.len() - i,
    {
        let ghost upto = vars_view(*vars).subrange(0, i + 1);
        assert(upto.drop_last() =~= vars_view(*vars).subrange(0, i as int));
        assert(upto.last() == (vars@[i as int].0@, vars@[i as int].1@));
        let key = chars_of(vars[i].0.as_str());
        let value = chars_of(vars[i].1.as_str());
        let ghost before = pairs_view(sorted);
        let mut j: usize = 0;
        while j < sorted.len() && !comes_before(&key, &sorted[j].0)
            invariant
                j <= sorted@.len(),
                pairs_view(sorted) == before,
                slot_for(before, key@, 0) == slot_for(before, key@, j as int),
            decreases sorted@.len() - j,
        {
            j += 1;
        }
        sorted.insert(j, (key, value));
        assert(pairs_view(sorted) =~= before.insert(j as int, (key@, value@)));
        i += 1;
    }
    assert(vars_view(*vars).subrange(0, vars@.len() as int) =~= vars_view(*vars));
    sorted
}

/// Whether `value` is written in quotes, computed.
fn quotes_needed(value: &Vec<char>) -> (r: bool)
    ensures
        r == needs_quotes(value@),
{
    holds_char(value, ' ') || holds_char(value, '\t') || holds_char(value, '\n') || holds_char(
        value,
        '"',
    )
}

/// Appends `value` to `out` with a backslash before every double quote.
fn push_escaped(out: &mut Vec<char>, value: &Vec<char>)
    ensures
        final(out)@ == old(out)@ + escaped(value@),
{
    let ghost before = out@;
    let mut i: usize = 0;
    assert(value@.subrange(0, 0) =~= Seq::<char>::empty());
    assert(out@ =~= before + escaped(value@.subrange(0, 0)));
    while i < value.len()
        invariant
            i <= value@.len(),
            out@ == before + escaped(value@.subrange(0, i as int)),
        decreases value@.len() - i,
    {
        let ghost done = escaped(value@.subrange(0, i as int));
        assert(value@.subrange(0, i + 1).drop_last() =~= value@.subrange(0, i as int));
        if value[i] == '"' {
            out.push('\\');
            out.push('"');
            assert(out@ =~= before + done.push('\\').push('"'));
        } else {
            out.push(value[i]);
            assert(out@ =~= before + done.push(value@[i as int]));
        }
        i += 1;
    }
    assert(value@.subrange(0, value@.len() as int) =~= value@);
}

/// Appends the line that sets `key` to `value` to `out`.
fn push_line(out: &mut Vec<char>, key: &Vec<char>, value: &Vec<char>)
    ensures
        final(out)@ == old(out)@ + written_line(key@, value@),
{
    let ghost before = out@;
    append_chars(out, key);
    out.push('=');
    if quotes_needed(value) {
        out.push('"');
        push_escaped(out, value);
        out.push('"');
        out.push('\n');
        assert(out@ =~= before + written_line(key@, value@));
    } else {
        append_chars(out, value);
        out.push('\n');
        assert(out@ =~= before + written_line(key@, value@));
    }
}

impl EnvironmentManager {
    /// Reads the text of an environment file: every line that sets a
    /// variable sets it here, in order. Lines that are empty or begin with
    /// `#`, and lines without `=`, are passed over.
    pub fn load_from_str(&mut self, content: &str)
        requires
            old(self).wf(),
        ensures
            final(self).wf(),
            final(self)@ == (Environment {
                variables: loaded(old(self)@.variables, split(content@, '\n')),
                ..old(self)@
            }),
    {
        let ghost before = self@;
        let text = chars_of(content);
        let lines = split_chars(&text, '\n');
        let mut i: usize = 0;
        assert(pieces_view(lines).subrange(0, 0) =~= Seq::<Text>::empty());
        while i < lines.len()
            invariant
                i <= lines@.len(),
                self.wf(),
                self@ == (Environment {
                    variables: loaded(before.variables, pieces_view(lines).subrange(0, i as int)),
                    ..before
                }),
            decreases lines@.len() - i,
        {
            let ghost upto = pieces_view(lines).subrange(0, i + 1);
            assert(upto.drop_last() =~= pieces_view(lines).subrange(0, i as int));
            assert(upto.last() == lines@[i as int]@);
            match parse_line(&lines[i]) {
                Some((key, value)) => {
                    put_variable(&mut self.variables, string_of(&key), string_of(&value));
                },
                None => {},
            }
            i += 1;
        }
        assert(pieces_view(lines).subrange(0, lines@.len() as int) =~= pieces_view(lines));
    }

    /// The text of an environment file that sets the variables of this
    /// manager: one line for each, in the order of their names. A value
    /// with a space, a tab, a line feed or a double quote is written in
    /// double quotes, with a backslash before every double quote in it.
    pub fn save_to_string(&self) -> (content: String)
        ensures
            content@ == written(by_name(self@.variables)),
    {
        let sorted = sort_by_name(&self.variables);
        let mut out: Vec<char> = Vec::new();
        let mut i: usize = 0;
        assert(pairs_view(sorted).subrange(0, 0) =~= Seq::<(Text, Text)>::empty());
        while i < sorted.len()
            invariant
                i <= sorted@.len(),
                out@ == written(pairs_view(sorted).subrange(0, i as int)),
            decreases sorted@.len() - i,
        {
            let ghost upto = pairs_view(sorted).subrange(0, i + 1);
            assert(upto.drop_last() =~= pairs_view(sorted).subrange(0, i as int));
            assert(upto.last() == (sorted@[i as int].0@, sorted@[i as int].1@));
            push_line(&mut out, &sorted[i].0, &sorted[i].1);
            i += 1;
        }
        assert(pairs_view(sorted).subrange(0, sorted@.len() as int) =~= pairs_view(sorted));
        string_of(&out)
    }
}

/// In distinct names, the index of a name is the index at which it stands.
pub proof fn lemma_index_is(vars: Variables, key: Text, at: int)
    requires
        keys_distinct(vars),
        0 <= at < vars.len(),
        vars[at].0 == key,
    ensures
        index_from(vars, key, 0) == Some(at),
{
    lemma_index_from(vars, key, 0);
    match index_from(vars, key, 0) {
        Some(i) => {
            if i < at {
                assert(vars[i].0 != vars[at].0);
            } else if at < i {
                assert(vars[at].0 != vars[i].0);
            }
        },
        None => {},
    }
}

/// A variable that was set has the value it was set to, and every other
/// variable has the value it had.
pub proof fn law_set_then_get(vars: Variables, key: Text, value: Text, other: Text)
    requires
        keys_distinct(vars),
    ensures
        lookup(assign(vars, key, value), key) == Some(value),
        other != key ==> lookup(assign(vars, key, value), other) == lookup(vars, other),
{
    let after = assign(vars, key, value);
    lemma_assign_distinct(vars, key, value);
    lemma_index_from(vars, key, 0);
    let at = match index_from(vars, key, 0) {
        Some(i) => i,
        None => vars.len() as int,
    };
    assert(after[at] == (key, value));
    lemma_index_is(after, key, at);
    if other != key {
        lemma_index_from(vars, other, 0);
        lemma_index_from(after, other, 0);
        match index_from(vars, other, 0) {
            Some(k) => {
                assert(after[k] == vars[k]);
                lemma_index_is(after, other, k);
            },
            None => {
                match index_from(after, other, 0) {
                    Some(k) => {
                        if k < vars.len() {
                            assert(after[k].0 == vars[k].0 || k == at);
                        }
                    },
                    None => {},
                }
            },
        }
    }
}

/// A variable that was removed is not set, and every other variable has
/// the value it had.
pub proof fn law_remove_then_get(vars: Variables, key: Text, other: Text)
    requires
        keys_distinct(vars),
    ensures
        lookup(without_key(vars, key), key) is None,
        other != key ==> lookup(without_key(vars, key), other) == lookup(vars, other),
{
    let after = without_key(vars, key);
    lemma_without_distinct(vars, key);
    lemma_index_from(vars, key, 0);
    lemma_index_from(after, key, 0);
    lemma_index_from(vars, other, 0);
    lemma_index_from(after, other, 0);
    match index_from(vars, key, 0) {
        Some(i) => {
            assert forall|j: int| 0 <= j < after.len() implies after[j] == vars[if j < i {
                j
            } else {
                j + 1
            }] by {}
            match index_from(after, key, 0) {
                Some(j) => {
                    let j0 = if j < i { j } else { j + 1 };
                    assert(after[j] == vars[j0]);
                    if j0 < i {
                        assert(vars[j0].0 != vars[i].0);
                    } else {
                        assert(vars[i].0 != vars[j0].0);
                    }
                },
                None => {},
            }
            if other != key {
                match index_from(vars, other, 0) {
                    Some(k) => {
                        let k2 = if k < i { k } else { k - 1 };
                        assert(after[k2] == vars[k]);
                        lemma_index_is(after, other, k2);
                    },
                    None => {
                        match index_from(after, other, 0) {
                            Some(k) => {
                                let k0 = if k < i { k } else { k + 1 };
                                assert(after[k] == vars[k0]);
                            },
                            None => {},
                        }
                    },
                }
            }
        },
        None => {},
    }
}

} // verus!
