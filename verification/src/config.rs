//! The configuration file: how an instance is assigned to another fork in it.
use vstd::prelude::*;
use vstd::string::*;

verus! {

/// What stands at a place of a TOML document.
pub enum TomlItem {
    /// A table, an inline table among them.
    Table,
    Text(Seq<char>),
    Integer(i64),
    Boolean(bool),
    /// Anything else: a float, a date or time, an array, an array of tables.
    Other,
}

/// What a TOML document holds: the item at the end of each series of keys that leads through
/// tables.
pub type TomlEntries = Map<Seq<Seq<char>>, TomlItem>;

#[verifier::external_type_specification]
#[verifier::external_body]
pub struct ExTomlError(toml_edit::TomlError);

/// What the document holds that a text is parsed to, if it is a TOML document.
pub uninterp spec fn toml_entries(text: Seq<char>) -> Option<Map<Seq<Seq<char>>, TomlItem>>;

/// The text of a document after the string `value` was put at `table`, `key`, `field`.
pub uninterp spec fn edited_text(
    text: Seq<char>,
    table: Seq<char>,
    key: Seq<char>,
    field: Seq<char>,
    value: Seq<char>,
) -> Seq<char>;

/// Whether a table stands at `path`, if anything does.
pub open spec fn table_at(entries: TomlEntries, path: Seq<Seq<char>>) -> Option<bool> {
    if entries.contains_key(path) {
        Some(entries[path] is Table)
    } else {
        None
    }
}

/// Whether an item can be put into the table `key` of the table `table`: each of the two is
/// a table or is not there yet.
pub open spec fn is_open(entries: TomlEntries, table: Seq<char>, key: Seq<char>) -> bool {
    &&& table_at(entries, seq![table]) != Some(false)
    &&& table_at(entries, seq![table, key]) != Some(false)
}

/// Whether `path` leads to `table`, `key`, `field` or to something in it.
pub open spec fn leads_into(
    path: Seq<Seq<char>>,
    table: Seq<char>,
    key: Seq<char>,
    field: Seq<char>,
) -> bool {
    path.len() >= 3 && path[0] == table && path[1] == key && path[2] == field
}

/// What a document holds after the string `value` was put at `table`, `key`, `field`: the tables
/// on the way are there, what stood at that place is gone, and everything else is as before.
pub open spec fn with_text(
    entries: TomlEntries,
    table: Seq<char>,
    key: Seq<char>,
    field: Seq<char>,
    value: Seq<char>,
) -> TomlEntries {
    entries.remove_keys(
        Set::new(|path: Seq<Seq<char>>| leads_into(path, table, key, field)),
    ).insert(seq![table], TomlItem::Table).insert(seq![table, key], TomlItem::Table).insert(
        seq![table, key, field],
        TomlItem::Text(value),
    )
}

/// How many equal quotation marks in a row `toml_edit` cannot count.
pub const QUOTE_RUN: usize = 256;

/// Whether `QUOTE_RUN` times the character `quote` stands before place `end` of `text`.
pub open spec fn run_before(text: Seq<char>, quote: char, end: int) -> bool {
    QUOTE_RUN <= end <= text.len() && forall|i: int|
        end - QUOTE_RUN <= i < end ==> #[trigger] text[i] == quote
}

/// Whether a row of equal quotation marks that `toml_edit` cannot count stands before place `end`
/// of `text`.
pub open spec fn quote_run_before(text: Seq<char>, end: int) -> bool {
    run_before(text, '"', end) || run_before(text, '\'', end)
}

/// Whether `text` holds a row of equal quotation marks that `toml_edit` cannot count.
pub open spec fn has_quote_run(text: Seq<char>) -> bool {
    exists|end: int| #[trigger] quote_run_before(text, end)
}

/// Parsing of `toml_edit`'s `DocumentMut`, and the lookup `get` on it: whether a table stands at
/// `table`, and at `key` in it. The parse fails where the text is no TOML document.
#[verifier::external_body]
fn tables_on_path(text: &str, table: &str, key: &str) -> (shapes: Result<
    (Option<bool>, Option<bool>),
    toml_edit::TomlError,
>)
    ensures
        match shapes {
            Ok((outer, inner)) => {
                &&& toml_entries(text@) matches Some(entries)
                &&& outer == table_at(entries, seq![table@])
                &&& inner == table_at(entries, seq![table@, key@])
            },
            Err(_) => toml_entries(text@) is None,
        },
{
    let document: toml_edit::DocumentMut = text.parse()?;
    let outer = document.get(table);
    let inner = outer.and_then(|item| item.get(key));
    Ok((outer.map(|item| item.is_table_like()), inner.map(|item| item.is_table_like())))
}

/// Assignment through `IndexMut` on `toml_edit`'s `DocumentMut`, parsed from `text` and written
/// out again. The document that is written out holds the string at its place, the tables on the
/// way, and all that it held elsewhere. The text itself keeps the layout and the comments of the
/// parts that were not touched; how it looks otherwise is left to the name.
#[verifier::external_body]
fn put_text(text: &str, table: &str, key: &str, field: &str, value: &str) -> (edited: Result<
    String,
    toml_edit::TomlError,
>)
    requires
        toml_entries(text@) matches Some(entries) ==> is_open(entries, table@, key@),
        !has_quote_run(value@),
    ensures
        match edited {
            Ok(written) => {
                &&& toml_entries(text@) matches Some(entries)
                &&& written@ == edited_text(text@, table@, key@, field@, value@)
                &&& toml_entries(written@) == Some(
                    with_text(entries, table@, key@, field@, value@),
                )
            },
            Err(_) => toml_entries(text@) is None,
        },
{
    let mut document: toml_edit::DocumentMut = text.parse()?;
    document[table][key][field] = value.into();
    Ok(document.to_string())
}

/// Tells whether a text holds a row of equal quotation marks that cannot be counted.
pub fn holds_quote_run(text: &str) -> (found: bool)
    ensures
        found == has_quote_run(text@),
{
    let mut doubles: usize = 0;
    let mut singles: usize = 0;
    for c in it: text.chars()
        invariant
            it.seq() == text@,
            doubles <= it.index(),
            singles <= it.index(),
            doubles < QUOTE_RUN,
            singles < QUOTE_RUN,
            forall|i: int| it.index() - doubles <= i < it.index() ==> text@[i] == '"',
            forall|i: int| it.index() - singles <= i < it.index() ==> text@[i] == '\'',
            doubles < it.index() ==> text@[it.index() - doubles - 1] != '"',
            singles < it.index() ==> text@[it.index() - singles - 1] != '\'',
            forall|end: int| end <= it.index() ==> !#[trigger] quote_run_before(text@, end),
    {
        let ghost seen = it.index() + 1;
        assert(c == text@[seen - 1]);
        doubles = if c == '"' {
            doubles + 1
        } else {
            0
        };
        singles = if c == '\'' {
            singles + 1
        } else {
            0
        };
        if doubles == QUOTE_RUN || singles == QUOTE_RUN {
            assert(quote_run_before(text@, seen));
            return true;
        }
        proof {
            if run_before(text@, '"', seen) {
                assert(text@[seen - doubles - 1] == '"');
            }
            if run_before(text@, '\'', seen) {
                assert(text@[seen - singles - 1] == '\'');
            }
        }
    }
    false
}

/// What came of assigning an instance to a fork in the configuration.
pub enum ForkRewrite {
    /// The configuration now reads like this.
    Rewritten(String),
    /// The configuration is no TOML document.
    Unreadable,
    /// Something other than a table stands where the instance should be described, or the name
    /// of the fork cannot be written.
    Obstructed,
}

/// The fork that a configuration assigns the instance `id` to.
pub open spec fn assigned_fork(entries: TomlEntries, id: Seq<char>) -> Option<Seq<char>> {
    let path = seq!["instances"@, id, "fork"@];
    if entries.contains_key(path) {
        match entries[path] {
            TomlItem::Text(fork) => Some(fork),
            _ => None,
        }
    } else {
        None
    }
}

/// Assigns the instance `id` to `fork` in the text of a configuration.
pub fn rewrite_fork(text: &str, id: &str, fork: &str) -> (rewrite: ForkRewrite)
    ensures
        match rewrite {
            ForkRewrite::Rewritten(written) => {
                &&& toml_entries(text@) matches Some(entries)
                &&& is_open(entries, "instances"@, id@)
                &&& !has_quote_run(fork@)
                &&& written@ == edited_text(text@, "instances"@, id@, "fork"@, fork@)
                &&& toml_entries(written@) == Some(
                    with_text(entries, "instances"@, id@, "fork"@, fork@),
                )
            },
            ForkRewrite::Unreadable => toml_entries(text@) is None,
            ForkRewrite::Obstructed => {
                &&& toml_entries(text@) matches Some(entries)
                &&& !is_open(entries, "instances"@, id@) || has_quote_run(fork@)
            },
        },
{
    match tables_on_path(text, "instances", id) {
        Err(_) => ForkRewrite::Unreadable,
        Ok((outer, inner)) => {
            if outer == Some(false) || inner == Some(false) || holds_quote_run(fork) {
                return ForkRewrite::Obstructed;
            }
            match put_text(text, "instances", id, "fork", fork) {
                Err(_) => ForkRewrite::Unreadable,
                Ok(written) => ForkRewrite::Rewritten(written),
            }
        },
    }
}

/// A configuration that was rewritten assigns the instance to the fork that was asked for.
pub proof fn rewritten_fork_is_read_back(entries: TomlEntries, id: Seq<char>, fork: Seq<char>)
    ensures
        assigned_fork(with_text(entries, "instances"@, id, "fork"@, fork), id) == Some(fork),
{
}

/// Assigning one instance to a fork leaves the other instances where they were.
pub proof fn rewriting_leaves_other_instances(
    entries: TomlEntries,
    id: Seq<char>,
    fork: Seq<char>,
    other: Seq<char>,
)
    requires
        other != id,
    ensures
        assigned_fork(with_text(entries, "instances"@, id, "fork"@, fork), other) == assigned_fork(
            entries,
            other,
        ),
{
    let path = seq!["instances"@, other, "fork"@];
    assert(path[1] == other);
    assert(seq!["instances"@, id, "fork"@][1] == id);
    assert(path.len() == 3);
    assert(seq!["instances"@].len() == 1);
    assert(seq!["instances"@, id].len() == 2);
}

/// Of two assignments of the same instance, the later one counts: the first leaves no trace.
pub proof fn later_rewrite_counts(
    entries: TomlEntries,
    id: Seq<char>,
    first: Seq<char>,
    second: Seq<char>,
)
    ensures
        with_text(
            with_text(entries, "instances"@, id, "fork"@, first),
            "instances"@,
            id,
            "fork"@,
            second,
        ) == with_text(entries, "instances"@, id, "fork"@, second),
        is_open(with_text(entries, "instances"@, id, "fork"@, first), "instances"@, id),
{
    let one = with_text(entries, "instances"@, id, "fork"@, first);
    let two = with_text(one, "instances"@, id, "fork"@, second);
    let path = seq!["instances"@, id, "fork"@];
    assert(leads_into(path, "instances"@, id, "fork"@));
    assert(seq!["instances"@].len() == 1);
    assert(seq!["instances"@, id].len() == 2);
    assert(path.len() == 3);
    assert(two =~= with_text(entries, "instances"@, id, "fork"@, second));
}

/// A name cannot be written only if 256 equal quotation marks stand in a row in it; so a name of
/// fewer characters always can.
pub proof fn short_names_can_be_written(name: Seq<char>)
    ensures
        has_quote_run(name) <==> exists|start: int|
            0 <= start <= name.len() - 256 && #[trigger] starts_quote_run(name, start),
        name.len() < 256 ==> !has_quote_run(name),
{
    if has_quote_run(name) {
        let end = choose|end: int| #[trigger] quote_run_before(name, end);
        assert(starts_quote_run(name, end - 256));
    }
    if exists|start: int| 0 <= start <= name.len() - 256 && #[trigger] starts_quote_run(name, start) {
        let start = choose|start: int|
            0 <= start <= name.len() - 256 && #[trigger] starts_quote_run(name, start);
        assert(quote_run_before(name, start + 256));
    }
}

/// Whether the 256 characters of `name` from `start` on are all the same quotation mark.
pub open spec fn starts_quote_run(name: Seq<char>, start: int) -> bool {
    ||| forall|i: int| start <= i < start + 256 ==> #[trigger] name[i] == '"'
    ||| forall|i: int| start <= i < start + 256 ==> #[trigger] name[i] == '\''
}

} // verus!
