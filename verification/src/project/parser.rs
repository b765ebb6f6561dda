//! Command metadata: what each source file declares, and the command index
//! of a project.
use vstd::prelude::*;

use crate::diagnostic::{
    diags_view, hinted, located, plain_diagnostic, Diagnostic, DiagnosticCode, DiagnosticLevel,
    DiagnosticView,
};
use crate::lang::{message, message_text, text, translation, Lang};
use crate::output::{
    commands_view, opt_str_view, ArgumentIndexView, CommandIndex, CommandIndexView, CommandKind,
};
use crate::project::parser_support::{
    key_parts,
    arguments_of, build_key, class_name, command_key, decorator_block, extends_name,
    extract_arguments, extract_class_name, extract_decorator_block, extract_extends_name,
    extract_string_array_property, extract_string_property, extract_value_property, has_run,
    has_run_method, is_command_file, is_command_path, is_definition_file, is_definition_path,
    is_ts_or_js, is_typescript_or_javascript, opt_text, string_array_property, string_property,
    value_property,
};
use crate::text::{chars_of, chars_eq_str, lex_less, lex_lt, str_eq};
use crate::output::strings_view;

verus! {

/// What a command declaration block states, with the rest of the command
/// taken from its file.
pub open spec fn command_from_block(
    kind: CommandKind,
    block: Seq<char>,
    path: Seq<char>,
    class: Option<Seq<char>>,
    content: Seq<char>,
) -> CommandIndexView {
    let ext = extends_name(content);
    let parent = string_property(block, "parent"@);
    let name = string_property(block, "name"@);
    let subcommand = string_property(block, "subcommand"@);
    CommandIndexView {
        kind,
        key: match kind {
            CommandKind::SubcommandGroup => command_key(seq![parent, name, subcommand]),
            CommandKind::Subcommand => command_key(seq![parent, name, None]),
            _ => command_key(seq![name, None, None]),
        },
        file: path,
        metadata_file: path,
        class_name: class,
        extends_name: ext,
        has_base_command_ancestor: ext == Some("BaseCommand"@),
        has_run_method: has_run(content),
        name: if kind == CommandKind::SubcommandGroup {
            None
        } else {
            name
        },
        parent: if kind == CommandKind::Command {
            None
        } else {
            parent
        },
        group: if kind == CommandKind::SubcommandGroup {
            name
        } else {
            None
        },
        subcommand: if kind == CommandKind::SubcommandGroup {
            subcommand
        } else {
            None
        },
        description: string_property(block, "description"@),
        category: value_property(block, "category"@),
        aliases: if kind == CommandKind::Command {
            string_array_property(block, "aliases"@)
        } else {
            Seq::empty()
        },
        arguments: arguments_of(content),
    }
}

/// Law: a command's key is made of the names its declaration gives,
/// lowercased and joined by `-`: for `@Subcommand`, its parent then its name
/// (so subcommands of different parents never share a key); for
/// `@SubcommandGroup`, its parent, name and subcommand; for `@Command`, its
/// name alone.
pub proof fn law_command_keys(
    block: Seq<char>,
    path: Seq<char>,
    class: Option<Seq<char>>,
    content: Seq<char>,
)
    ensures
        string_property(block, "parent"@) matches Some(p) ==> (string_property(block, "name"@) matches Some(
            n,
        ) ==> command_from_block(CommandKind::Subcommand, block, path, class, content).key == Some(
            crate::lang::lowercase(p) + seq!['-'] + crate::lang::lowercase(n),
        )),
        string_property(block, "name"@) is None ==> (string_property(block, "parent"@) matches Some(p)
            ==> command_from_block(CommandKind::Subcommand, block, path, class, content).key == Some(
            crate::lang::lowercase(p),
        )),
        string_property(block, "parent"@) matches Some(p) ==> (string_property(block, "name"@) matches Some(
            n,
        ) ==> (string_property(block, "subcommand"@) matches Some(u) ==> command_from_block(
            CommandKind::SubcommandGroup,
            block,
            path,
            class,
            content,
        ).key == Some(
            crate::lang::lowercase(p) + seq!['-'] + crate::lang::lowercase(n) + seq!['-']
                + crate::lang::lowercase(u),
        ))),
        string_property(block, "name"@) matches Some(n) ==> command_from_block(
            CommandKind::Command,
            block,
            path,
            class,
            content,
        ).key == Some(crate::lang::lowercase(n)),
{
    let parent = string_property(block, "parent"@);
    let name = string_property(block, "name"@);
    let sub = string_property(block, "subcommand"@);
    let e = Seq::<Option<Seq<char>>>::empty();
    let ps2 = seq![parent, name, None::<Seq<char>>];
    assert(ps2.drop_last() =~= seq![parent, name]);
    assert(seq![parent, name].drop_last() =~= seq![parent]);
    assert(seq![parent].drop_last() =~= e);
    assert(key_parts(e) == Seq::<Seq<char>>::empty());
    let ps1 = seq![name, None::<Seq<char>>, None::<Seq<char>>];
    assert(ps1.drop_last() =~= seq![name, None::<Seq<char>>]);
    assert(seq![name, None::<Seq<char>>].drop_last() =~= seq![name]);
    assert(seq![name].drop_last() =~= e);
    let ps3 = seq![parent, name, sub];
    assert(ps3.drop_last() =~= seq![parent, name]);
    assert(key_parts(ps2) == key_parts(seq![parent, name]));
    assert(key_parts(ps1) == key_parts(seq![name, None::<Seq<char>>]));
    assert(key_parts(seq![name, None::<Seq<char>>]) == key_parts(seq![name]));
    if let Some(p) = parent {
        let lp = crate::lang::lowercase(p);
        assert(key_parts(seq![parent]) == Seq::<Seq<char>>::empty().push(lp));
        assert(key_parts(seq![parent]) =~= seq![lp]);
        if let Some(n) = name {
            let ln = crate::lang::lowercase(n);
            let ks = key_parts(ps2);
            assert(key_parts(seq![parent, name]) == key_parts(seq![parent]).push(ln));
            assert(ks =~= seq![lp, ln]);
            assert(ks.drop_last() =~= seq![lp]);
            assert(crate::utils::join(ks.drop_last(), seq!['-']) == lp);
            assert(crate::utils::join(ks, seq!['-']) == crate::utils::join(ks.drop_last(), seq!['-'])
                + seq!['-'] + ln);
            assert(command_key(ps2) == Some(lp + seq!['-'] + ln));
            assert(command_from_block(CommandKind::Subcommand, block, path, class, content).key
                == command_key(ps2));
            assert(command_from_block(CommandKind::SubcommandGroup, block, path, class, content).key
                == command_key(ps3));
            if let Some(u) = sub {
                let lu = crate::lang::lowercase(u);
                let k3 = key_parts(ps3);
                assert(k3 == ks.push(lu));
                assert(k3.drop_last() =~= ks);
                assert(crate::utils::join(k3, seq!['-']) == crate::utils::join(ks, seq!['-']) + seq!['-']
                    + lu);
                assert(command_key(ps3) == Some(lp + seq!['-'] + ln + seq!['-'] + lu));
            }
        } else {
            assert(key_parts(seq![parent, name]) == key_parts(seq![parent]));
        }
    }
    if let Some(n) = name {
        assert(key_parts(seq![name]) == Seq::<Seq<char>>::empty().push(crate::lang::lowercase(n)));
        assert(key_parts(seq![name]) =~= seq![crate::lang::lowercase(n)]);
    }
}

/// The command that `content` declares with `@SubcommandGroup`,
/// `@Subcommand` or `@Command` (checked in that order).
pub open spec fn command_of(content: Seq<char>, path: Seq<char>, class: Option<Seq<char>>) -> Option<
    CommandIndexView,
> {
    match decorator_block(content, "SubcommandGroup"@) {
        Some(b) => Some(command_from_block(CommandKind::SubcommandGroup, b, path, class, content)),
        None => match decorator_block(content, "Subcommand"@) {
            Some(b) => Some(command_from_block(CommandKind::Subcommand, b, path, class, content)),
            None => match decorator_block(content, "Command"@) {
                Some(b) => Some(command_from_block(CommandKind::Command, b, path, class, content)),
                None => None,
            },
        },
    }
}

/// Builds the command that a declaration block states.
fn command_from(
    kind: CommandKind,
    block: &[char],
    relative_path: &str,
    class_name: Option<String>,
    content: &[char],
) -> (res: CommandIndex)
    ensures
        res@ == command_from_block(kind, block@, relative_path@, opt_str_view(class_name), content@),
{
    proof {
        reveal_strlit("parent");
        reveal_strlit("name");
        reveal_strlit("subcommand");
        reveal_strlit("description");
        reveal_strlit("category");
        reveal_strlit("aliases");
    }
    let extends = extract_extends_name(content);
    let base = match &extends {
        Some(e) => {
            let ec = chars_of(e.as_str());
            chars_eq_str(&ec, "BaseCommand")
        },
        None => false,
    };
    let run = has_run_method(content);
    let arguments = extract_arguments(content);
    let parent = extract_string_property(block, "parent");
    let name = extract_string_property(block, "name");
    let subcommand = extract_string_property(block, "subcommand");
    let key = match kind {
        CommandKind::SubcommandGroup => {
            let parts = [as_str_opt(&parent), as_str_opt(&name), as_str_opt(&subcommand)];
            assert(parts@.map_values(|p: Option<&str>| opt_text(p)) =~= seq![
                opt_str_view(parent),
                opt_str_view(name),
                opt_str_view(subcommand),
            ]);
            build_key(parts)
        },
        CommandKind::Subcommand => {
            let parts = [as_str_opt(&parent), as_str_opt(&name), None];
            assert(parts@.map_values(|p: Option<&str>| opt_text(p)) =~= seq![
                opt_str_view(parent),
                opt_str_view(name),
                None,
            ]);
            build_key(parts)
        },
        _ => {
            let parts = [as_str_opt(&name), None, None];
            assert(parts@.map_values(|p: Option<&str>| opt_text(p)) =~= seq![
                opt_str_view(name),
                None,
                None,
            ]);
            build_key(parts)
        },
    };
    let aliases = if kind == CommandKind::Command {
        extract_string_array_property(block, "aliases")
    } else {
        let v: Vec<String> = Vec::new();
        assert(v@.map_values(|s: String| s@) =~= Seq::<Seq<char>>::empty());
        v
    };
    let is_group = kind == CommandKind::SubcommandGroup;
    CommandIndex {
        kind,
        key,
        file: relative_path.to_owned(),
        metadata_file: relative_path.to_owned(),
        class_name,
        extends_name: extends,
        has_base_command_ancestor: base,
        has_run_method: run,
        name: if is_group {
            None
        } else {
            name
        },
        parent: if kind == CommandKind::Command {
            None
        } else {
            parent
        },
        group: if is_group {
            extract_string_property(block, "name")
        } else {
            None
        },
        subcommand: if is_group {
            subcommand
        } else {
            None
        },
        description: extract_string_property(block, "description"),
        category: extract_value_property(block, "category"),
        aliases,
        arguments,
    }
}

/// The text of an optional string, by reference.
fn as_str_opt(s: &Option<String>) -> (res: Option<&str>)
    ensures
        opt_text(res) == opt_str_view(*s),
{
    match s {
        Some(v) => Some(v.as_str()),
        None => None,
    }
}

/// The command that `content` declares, if any.
pub fn parse_command_index(content: &[char], relative_path: &str, class_name: Option<String>) -> (res:
    Option<CommandIndex>)
    ensures
        match res {
            Some(c) => command_of(content@, relative_path@, opt_str_view(class_name)) == Some(c@),
            None => command_of(content@, relative_path@, opt_str_view(class_name)) is None,
        },
{
    match extract_decorator_block(content, "SubcommandGroup") {
        Some(b) => {
            let bc = chars_of(b.as_str());
            return Some(
                command_from(CommandKind::SubcommandGroup, &bc, relative_path, class_name, content),
            );
        },
        None => {},
    }
    match extract_decorator_block(content, "Subcommand") {
        Some(b) => {
            let bc = chars_of(b.as_str());
            return Some(
                command_from(CommandKind::Subcommand, &bc, relative_path, class_name, content),
            );
        },
        None => {},
    }
    match extract_decorator_block(content, "Command") {
        Some(b) => {
            let bc = chars_of(b.as_str());
            Some(command_from(CommandKind::Command, &bc, relative_path, class_name, content))
        },
        None => None,
    }
}


/// A source file of the project: its path relative to the root and its
/// text (`None` where it could not be read).
pub struct SourceFile {
    pub path: String,
    pub content: Option<String>,
}

/// What a source file declares.
pub struct FileInfoView {
    pub path: Seq<char>,
    pub class_name: Option<Seq<char>>,
    pub extends_name: Option<Seq<char>>,
    pub base: bool,
    pub run: bool,
    pub command: Option<CommandIndexView>,
}

/// What the source file at `path` with text `content` declares.
pub open spec fn file_info(path: Seq<char>, content: Seq<char>) -> FileInfoView {
    let class = class_name(content);
    FileInfoView {
        path,
        class_name: class,
        extends_name: extends_name(content),
        base: extends_name(content) == Some("BaseCommand"@),
        run: has_run(content),
        command: if is_command_path(path) || is_definition_path(path) {
            command_of(content, path, class)
        } else {
            None
        },
    }
}

/// What the readable TypeScript and JavaScript files declare, in order.
pub open spec fn infos_of(files: Seq<SourceFile>) -> Seq<FileInfoView>
    decreases files.len(),
{
    if files.len() == 0 {
        Seq::empty()
    } else {
        let f = files.last();
        let prev = infos_of(files.drop_last());
        if is_ts_or_js(f.path@) && f.content is Some {
            prev.push(file_info(f.path@, f.content->0@))
        } else {
            prev
        }
    }
}

/// The diagnostic for a source file that could not be read.
pub open spec fn read_failed_diagnostic(locale: Lang, path: Seq<char>) -> DiagnosticView {
    hinted(
        located(
            plain_diagnostic(
                DiagnosticLevel::Warning,
                "patto_source_file_read_failed"@,
                message_text(
                    locale,
                    "patto_source_file_read_failed.message"@,
                    seq![("file"@, path)],
                ),
            ),
            path,
            1,
            1,
        ),
        translation(locale, crate::utils::hint_key("patto_source_file_read_failed"@)),
    )
}

/// The diagnostics for the TypeScript and JavaScript files that could not
/// be read, in order.
pub open spec fn read_failures(locale: Lang, files: Seq<SourceFile>) -> Seq<DiagnosticView>
    decreases files.len(),
{
    if files.len() == 0 {
        Seq::empty()
    } else {
        let f = files.last();
        let prev = read_failures(locale, files.drop_last());
        if is_ts_or_js(f.path@) && f.content is None {
            prev.push(read_failed_diagnostic(locale, f.path@))
        } else {
            prev
        }
    }
}

/// The command declared by the last file of `infos` whose class is `name`
/// and that declares one.
pub open spec fn decorated(infos: Seq<FileInfoView>, name: Seq<char>) -> Option<CommandIndexView>
    decreases infos.len(),
{
    if infos.len() == 0 {
        None
    } else if infos.last().class_name == Some(name) && infos.last().command is Some {
        infos.last().command
    } else {
        decorated(infos.drop_last(), name)
    }
}

/// The entry of a command file that declares no command of its own and
/// inherits none.
pub open spec fn unknown_command(info: FileInfoView) -> CommandIndexView {
    CommandIndexView {
        kind: CommandKind::Unknown,
        key: None,
        file: info.path,
        metadata_file: info.path,
        class_name: info.class_name,
        extends_name: info.extends_name,
        has_base_command_ancestor: info.base,
        has_run_method: info.run,
        name: None,
        parent: None,
        group: None,
        subcommand: None,
        description: None,
        category: None,
        aliases: Seq::empty(),
        arguments: Seq::empty(),
    }
}

/// The command of a command file: the one it declares, else the one
/// declared on the class it extends (with this file's path, class and run
/// method), else an unknown command.
pub open spec fn resolved_command(infos: Seq<FileInfoView>, info: FileInfoView) -> CommandIndexView {
    match info.command {
        Some(c) => c,
        None => match info.extends_name {
            Some(e) => match decorated(infos, e) {
                Some(c) => CommandIndexView {
                    file: info.path,
                    class_name: info.class_name,
                    extends_name: info.extends_name,
                    has_run_method: info.run,
                    ..c
                },
                None => unknown_command(info),
            },
            None => unknown_command(info),
        },
    }
}

/// The commands of the command files among `part`, in order.
pub open spec fn commands_of(infos: Seq<FileInfoView>, part: Seq<FileInfoView>) -> Seq<
    CommandIndexView,
>
    decreases part.len(),
{
    if part.len() == 0 {
        Seq::empty()
    } else {
        let prev = commands_of(infos, part.drop_last());
        if is_command_path(part.last().path) {
            prev.push(resolved_command(infos, part.last()))
        } else {
            prev
        }
    }
}

/// `sorted` with `x` put after every command whose file does not come
/// after the file of `x`.
pub open spec fn insert_by_file(sorted: Seq<CommandIndexView>, x: CommandIndexView) -> Seq<
    CommandIndexView,
>
    decreases sorted.len(),
{
    if sorted.len() == 0 {
        seq![x]
    } else if lex_lt(x.file, sorted.last().file) {
        insert_by_file(sorted.drop_last(), x).push(sorted.last())
    } else {
        sorted.push(x)
    }
}

/// `s` stably sorted by file.
pub open spec fn sort_by_file(s: Seq<CommandIndexView>) -> Seq<CommandIndexView>
    decreases s.len(),
{
    if s.len() == 0 {
        Seq::empty()
    } else {
        insert_by_file(sort_by_file(s.drop_last()), s.last())
    }
}

/// The commands of a project, sorted by file.
pub open spec fn scanned_commands(files: Seq<SourceFile>) -> Seq<CommandIndexView> {
    let infos = infos_of(files);
    sort_by_file(commands_of(infos, infos))
}

/// What a source file declares.
pub struct FileInfo {
    pub path: String,
    pub class_name: Option<String>,
    pub extends_name: Option<String>,
    pub base: bool,
    pub run: bool,
    pub command: Option<CommandIndex>,
}

impl View for FileInfo {
    type V = FileInfoView;

    open spec fn view(&self) -> FileInfoView {
        FileInfoView {
            path: self.path@,
            class_name: opt_str_view(self.class_name),
            extends_name: opt_str_view(self.extends_name),
            base: self.base,
            run: self.run,
            command: match self.command {
                Some(c) => Some(c@),
                None => None,
            },
        }
    }
}

pub open spec fn infos_view(v: Seq<FileInfo>) -> Seq<FileInfoView> {
    v.map_values(|i: FileInfo| i@)
}

fn read_info(path: &str, content: &str) -> (res: FileInfo)
    ensures
        res@ == file_info(path@, content@),
{
    let chars = chars_of(content);
    let class = extract_class_name(&chars);
    let extends = extract_extends_name(&chars);
    let base = match &extends {
        Some(e) => {
            let ec = chars_of(e.as_str());
            chars_eq_str(&ec, "BaseCommand")
        },
        None => false,
    };
    let run = has_run_method(&chars);
    let command = if is_command_file(path) || is_definition_file(path) {
        parse_command_index(&chars, path, crate::output::copy_opt(&class))
    } else {
        None
    };
    FileInfo { path: path.to_owned(), class_name: class, extends_name: extends, base, run, command }
}

fn find_decorated(infos: &Vec<FileInfo>, name: &str) -> (res: Option<CommandIndex>)
    ensures
        match res {
            Some(c) => decorated(infos_view(infos@), name@) == Some(c@),
            None => decorated(infos_view(infos@), name@) is None,
        },
{
    let ghost iv = infos_view(infos@);
    let mut k = infos.len();
    assert(iv.take(k as int) =~= iv);
    while k > 0
        invariant
            k <= infos@.len(),
            iv == infos_view(infos@),
            decorated(iv, name@) == decorated(iv.take(k as int), name@),
        decreases k,
    {
        let info = &infos[k - 1];
        proof {
            assert(iv.take(k as int).drop_last() =~= iv.take(k - 1));
            assert(iv.take(k as int).last() == info@);
        }
        let same = match &info.class_name {
            Some(c) => str_eq(c.as_str(), name),
            None => false,
        };
        if same {
            match &info.command {
                Some(c) => {
                    return Some(c.duplicate());
                },
                None => {},
            }
        }
        k = k - 1;
    }
    assert(iv.take(0) =~= Seq::<FileInfoView>::empty());
    None
}

fn resolve(infos: &Vec<FileInfo>, info: &FileInfo) -> (res: CommandIndex)
    ensures
        res@ == resolved_command(infos_view(infos@), info@),
{
    match &info.command {
        Some(c) => {
            return c.duplicate();
        },
        None => {},
    }
    match &info.extends_name {
        Some(e) => match find_decorated(infos, e.as_str()) {
            Some(c) => {
                let mut command = c;
                command.file = info.path.clone();
                command.class_name = crate::output::copy_opt(&info.class_name);
                command.extends_name = crate::output::copy_opt(&info.extends_name);
                command.has_run_method = info.run;
                return command;
            },
            None => {},
        },
        None => {},
    }
    let aliases: Vec<String> = Vec::new();
    let arguments: Vec<crate::output::ArgumentIndex> = Vec::new();
    assert(strings_view(aliases@) =~= Seq::<Seq<char>>::empty());
    assert(arguments@.map_values(|a: crate::output::ArgumentIndex| a@) =~= Seq::<
        ArgumentIndexView,
    >::empty());
    CommandIndex {
        kind: CommandKind::Unknown,
        key: None,
        file: info.path.clone(),
        metadata_file: info.path.clone(),
        class_name: crate::output::copy_opt(&info.class_name),
        extends_name: crate::output::copy_opt(&info.extends_name),
        has_base_command_ancestor: info.base,
        has_run_method: info.run,
        name: None,
        parent: None,
        group: None,
        subcommand: None,
        description: None,
        category: None,
        aliases,
        arguments,
    }
}

pub proof fn lemma_insert_by_file_at(sorted: Seq<CommandIndexView>, x: CommandIndexView, j: int)
    requires
        0 <= j <= sorted.len(),
        j == 0 || !lex_lt(x.file, sorted[j - 1].file),
        forall|m: int| j <= m < sorted.len() ==> lex_lt(x.file, #[trigger] sorted[m].file),
    ensures
        insert_by_file(sorted, x) == sorted.insert(j, x),
    decreases sorted.len(),
{
    if sorted.len() == j {
        assert(sorted.insert(j, x) =~= sorted.push(x));
    } else {
        let d = sorted.drop_last();
        assert(lex_lt(x.file, sorted[sorted.len() - 1].file));
        assert forall|m: int| j <= m < d.len() implies lex_lt(x.file, #[trigger] d[m].file) by {
            assert(d[m] == sorted[m]);
        }
        if j > 0 {
            assert(d[j - 1] == sorted[j - 1]);
        }
        lemma_insert_by_file_at(d, x, j);
        assert(d.insert(j, x).push(sorted.last()) =~= sorted.insert(j, x));
    }
}

/// Whether the file of `x` comes before the file of `y`.
fn file_before(x: &CommandIndex, y: &CommandIndex) -> (res: bool)
    ensures
        res == lex_lt(x.file@, y.file@),
{
    let xf = chars_of(x.file.as_str());
    let yf = chars_of(y.file.as_str());
    lex_less(&xf, &yf)
}

fn insert_command_sorted(v: &mut Vec<CommandIndex>, x: CommandIndex)
    ensures
        commands_view(final(v)@) == insert_by_file(commands_view(old(v)@), x@),
{
    let ghost cv = commands_view(v@);
    let mut j = v.len();
    while j > 0 && file_before(&x, &v[j - 1])
        invariant
            j <= v@.len(),
            cv == commands_view(v@),
            forall|m: int| j <= m < v@.len() ==> lex_lt(x.file@, #[trigger] v@[m].file@),
        decreases j,
    {
        j = j - 1;
    }
    proof {
        assert forall|m: int| j <= m < cv.len() implies lex_lt(x@.file, #[trigger] cv[m].file) by {
            assert(cv[m].file == v@[m].file@);
        }
        if j > 0 {
            assert(cv[j - 1].file == v@[j - 1].file@);
        }
        lemma_insert_by_file_at(cv, x@, j as int);
    }
    let ghost xv = x@;
    v.insert(j, x);
    assert(commands_view(v@) =~= cv.insert(j as int, xv));
}

/// The commands of a project: each command file with the command it
/// declares or inherits (or an unknown command), sorted by file. Source
/// files that could not be read are reported.
pub fn scan_commands(files: &Vec<SourceFile>, diagnostics: &mut Vec<Diagnostic>, locale: Lang) -> (res:
    Vec<CommandIndex>)
    ensures
        commands_view(res@) == scanned_commands(files@),
        diags_view(final(diagnostics)@) == diags_view(old(diagnostics)@) + read_failures(
            locale,
            files@,
        ),
{
    let mut infos: Vec<FileInfo> = Vec::new();
    let ghost d0 = diags_view(diagnostics@);
    let mut i: usize = 0;
    assert(files@.take(0) =~= Seq::<SourceFile>::empty());
    assert(infos_view(infos@) =~= Seq::<FileInfoView>::empty());
    assert(diags_view(diagnostics@) =~= d0 + Seq::<DiagnosticView>::empty());
    while i < files.len()
        invariant
            i <= files@.len(),
            infos_view(infos@) == infos_of(files@.take(i as int)),
            diags_view(diagnostics@) == d0 + read_failures(locale, files@.take(i as int)),
        decreases files@.len() - i,
    {
        let f = &files[i];
        proof {
            assert(files@.take(i + 1).drop_last() =~= files@.take(i as int));
            assert(files@.take(i + 1).last() == files@[i as int]);
        }
        if is_typescript_or_javascript(f.path.as_str()) {
            match &f.content {
                Some(content) => {
                    let info = read_info(f.path.as_str(), content.as_str());
                    let ghost before = infos_view(infos@);
                    infos.push(info);
                    assert(infos_view(infos@) =~= before.push(info@));
                },
                None => {
                    let path = f.path.as_str();
                    let args = [("file", path)];
                    proof {
                        reveal_strlit("file");
                        assert(crate::lang::args_view(args@) =~= seq![("file"@, path@)]);
                    }
                    let d = Diagnostic::new(
                        DiagnosticLevel::Warning,
                        DiagnosticCode::PATTO_SOURCE_FILE_READ_FAILED,
                        message(locale, "patto_source_file_read_failed.message", &args),
                    ).with_location(path, 1, 1).with_hint(
                        crate::utils::hint_text(locale, DiagnosticCode::PATTO_SOURCE_FILE_READ_FAILED),
                    );
                    let ghost before = diags_view(diagnostics@);
                    diagnostics.push(d);
                    assert(diags_view(diagnostics@) =~= before.push(d@));
                },
            }
        }
        i = i + 1;
    }
    assert(files@.take(files@.len() as int) =~= files@);
    let ghost iv = infos_view(infos@);
    let mut commands: Vec<CommandIndex> = Vec::new();
    let mut j: usize = 0;
    assert(iv.take(0) =~= Seq::<FileInfoView>::empty());
    while j < infos.len()
        invariant
            j <= infos@.len(),
            iv == infos_view(infos@),
            commands_view(commands@) == commands_of(iv, iv.take(j as int)),
        decreases infos@.len() - j,
    {
        let info = &infos[j];
        proof {
            assert(iv.take(j + 1).drop_last() =~= iv.take(j as int));
            assert(iv.take(j + 1).last() == info@);
        }
        if is_command_file(info.path.as_str()) {
            let c = resolve(&infos, info);
            let ghost before = commands_view(commands@);
            commands.push(c);
            assert(commands_view(commands@) =~= before.push(c@));
        }
        j = j + 1;
    }
    assert(iv.take(iv.len() as int) =~= iv);
    let ghost all = commands_view(commands@);
    let mut sorted: Vec<CommandIndex> = Vec::new();
    let mut rest = commands;
    let n = rest.len();
    let mut k: usize = 0;
    assert(commands_view(sorted@) =~= sort_by_file(all.take(0)));
    assert(commands_view(rest@) =~= all.skip(0));
    while k < n
        invariant
            k <= n,
            n == all.len(),
            rest@.len() == n - k,
            commands_view(rest@) == all.skip(k as int),
            commands_view(sorted@) == sort_by_file(all.take(k as int)),
        decreases n - k,
    {
        let ghost before = rest@;
        let x = rest.remove(0);
        proof {
            assert(commands_view(before)[0] == x@);
            assert(all.skip(k as int)[0] == all[k as int]);
            assert forall|m: int| 0 <= m < rest@.len() implies #[trigger] commands_view(rest@)[m]
                == all.skip(k + 1)[m] by {
                assert(rest@[m] == before[m + 1]);
                assert(commands_view(before)[m + 1] == all.skip(k as int)[m + 1]);
            }
            assert(commands_view(rest@) =~= all.skip(k + 1));
            assert(all.take(k + 1).drop_last() =~= all.take(k as int));
            assert(all.take(k + 1).last() == all[k as int]);
        }
        insert_command_sorted(&mut sorted, x);
        k = k + 1;
    }
    assert(all.take(n as int) =~= all);
    sorted
}

/// No command of `s` has a file that comes before the file of an earlier
/// one.
pub open spec fn files_ordered(s: Seq<CommandIndexView>) -> bool {
    forall|i: int, j: int| 0 <= i < j < s.len() ==> !lex_lt(#[trigger] s[j].file, #[trigger] s[i].file)
}

proof fn lemma_insert_by_file_keeps(s: Seq<CommandIndexView>, x: CommandIndexView, bound: Seq<char>)
    requires
        !lex_lt(bound, x.file),
        forall|i: int| 0 <= i < s.len() ==> !lex_lt(bound, #[trigger] s[i].file),
    ensures
        insert_by_file(s, x).len() == s.len() + 1,
        forall|i: int| 0 <= i < insert_by_file(s, x).len() ==> !lex_lt(bound, #[trigger] insert_by_file(s, x)[i].file),
    decreases s.len(),
{
    if s.len() > 0 && lex_lt(x.file, s.last().file) {
        let d = s.drop_last();
        assert forall|i: int| 0 <= i < d.len() implies !lex_lt(bound, #[trigger] d[i].file) by {
            assert(d[i] == s[i]);
        }
        lemma_insert_by_file_keeps(d, x, bound);
        let r = insert_by_file(d, x);
        assert forall|i: int| 0 <= i < r.push(s.last()).len() implies !lex_lt(bound, #[trigger] r.push(s.last())[i].file) by {
            if i < r.len() {
                assert(r.push(s.last())[i] == r[i]);
            } else {
                assert(s[s.len() - 1] == s.last());
            }
        }
    } else if s.len() > 0 {
        assert forall|i: int| 0 <= i < s.push(x).len() implies !lex_lt(bound, #[trigger] s.push(x)[i].file) by {
            if i < s.len() {
                assert(s.push(x)[i] == s[i]);
            }
        }
    }
}

proof fn lemma_insert_by_file_ordered(s: Seq<CommandIndexView>, x: CommandIndexView)
    requires
        files_ordered(s),
    ensures
        files_ordered(insert_by_file(s, x)),
    decreases s.len(),
{
    if s.len() == 0 {
    } else if lex_lt(x.file, s.last().file) {
        let d = s.drop_last();
        let last = s.last();
        assert(files_ordered(d)) by {
            assert forall|i: int, j: int| 0 <= i < j < d.len() implies !lex_lt(#[trigger] d[j].file, #[trigger] d[i].file) by {
                assert(d[i] == s[i] && d[j] == s[j]);
            }
        }
        lemma_insert_by_file_ordered(d, x);
        crate::text::lemma_lex_asym(x.file, last.file);
        assert forall|i: int| 0 <= i < d.len() implies !lex_lt(last.file, #[trigger] d[i].file) by {
            assert(d[i] == s[i]);
            assert(s[s.len() - 1] == last);
        }
        lemma_insert_by_file_keeps(d, x, last.file);
        let r = insert_by_file(d, x);
        let t = r.push(last);
        assert forall|i: int, j: int| 0 <= i < j < t.len() implies !lex_lt(#[trigger] t[j].file, #[trigger] t[i].file) by {
            if j < r.len() {
                assert(t[i] == r[i] && t[j] == r[j]);
            } else {
                assert(t[j] == last);
                assert(t[i] == r[i]);
            }
        }
    } else {
        let t = s.push(x);
        assert forall|i: int, j: int| 0 <= i < j < t.len() implies !lex_lt(#[trigger] t[j].file, #[trigger] t[i].file) by {
            if j < s.len() {
                assert(t[i] == s[i] && t[j] == s[j]);
            } else {
                assert(t[j] == x);
                assert(t[i] == s[i]);
                let last = s.last();
                assert(s[s.len() - 1] == last);
                if i < s.len() - 1 {
                    assert(!lex_lt(last.file, s[i].file));
                }
                if lex_lt(x.file, s[i].file) {
                    crate::text::lemma_lex_total(last.file, s[i].file);
                    if lex_lt(s[i].file, last.file) {
                        crate::text::lemma_lex_trans(x.file, s[i].file, last.file);
                    }
                }
            }
        }
    }
}

/// Law: the commands of a scan come ordered by file.
pub proof fn law_commands_sorted_by_file(files: Seq<SourceFile>)
    ensures
        files_ordered(scanned_commands(files)),
{
    let infos = infos_of(files);
    lemma_sort_by_file_ordered(commands_of(infos, infos));
}

proof fn lemma_sort_by_file_ordered(s: Seq<CommandIndexView>)
    ensures
        files_ordered(sort_by_file(s)),
    decreases s.len(),
{
    if s.len() > 0 {
        lemma_sort_by_file_ordered(s.drop_last());
        lemma_insert_by_file_ordered(sort_by_file(s.drop_last()), s.last());
    }
}

} // verus!
