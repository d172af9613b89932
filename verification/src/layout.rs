use crate::config::{
    entry_views, scope_views, scoped_views, Scope, ScopeView, ScopedServer, ScopedServerView,
    Server, ServerEntry, ServerEntryView, ServerView,
};
use crate::output::LsResult;
use crate::store::{
    scope_entries, scoped_at, scoped_entries, scoped_len, scopes_at, scopes_len, server_entries,
    servers_at, servers_len,
};
use crate::text::{copy_opt_text, decimal_digits, decimal_text, push_char};
use indexmap::IndexMap;
use vstd::prelude::*;
use vstd::string::StringExecFns;

verus! {

/// What stands before the name of a line.
#[derive(Clone, Copy, Debug, PartialEq, Eq, Structural)]
pub enum Branch {
    /// Nothing.
    Plain,
    /// The mark of an attribute that others follow.
    Tee,
    /// The mark of the last attribute.
    Corner,
}

/// What a line names.
#[derive(Clone, Copy, Debug, PartialEq, Eq, Structural)]
pub enum Role {
    /// A scope.
    Scope,
    /// A server.
    Server,
    /// An attribute.
    Attribute,
}

/// One line of a listing.
#[derive(Debug)]
pub enum Line {
    /// An empty line.
    Blank,
    /// A name, with its value where it has one on the same line.
    Entry { depth: u8, branch: Branch, role: Role, name: String, value: Option<String> },
}

/// What a [`Line`] holds, as mathematical values.
pub enum LineView {
    Blank,
    Entry { depth: u8, branch: Branch, role: Role, name: Seq<char>, value: Option<Seq<char>> },
}

impl View for Line {
    type V = LineView;

    open spec fn view(&self) -> LineView {
        match self {
            Line::Blank => LineView::Blank,
            Line::Entry { depth, branch, role, name, value } => LineView::Entry {
                depth: *depth,
                branch: *branch,
                role: *role,
                name: name@,
                value: value.deep_view(),
            },
        }
    }
}

/// The views of a list of lines.
pub open spec fn lines_view(lines: Seq<Line>) -> Seq<LineView> {
    Seq::new(lines.len(), |i: int| lines[i]@)
}

/// An attribute with its value, both as text.
pub type Field = (Seq<char>, Seq<char>);

/// The views of a list of fields.
pub open spec fn fields_view(fields: Seq<(String, String)>) -> Seq<Field> {
    Seq::new(fields.len(), |i: int| (fields[i].0@, fields[i].1@))
}

/// The names with a comma between each two.
pub open spec fn joined_names(names: Seq<Seq<char>>) -> Seq<char>
    decreases names.len(),
{
    if names.len() == 0 {
        Seq::empty()
    } else if names.len() == 1 {
        names[0]
    } else {
        joined_names(names.drop_last()) + seq![','] + names.last()
    }
}

/// The field of an attribute that is present; nothing for one that is not.
pub open spec fn field_of(key: Seq<char>, value: Option<Seq<char>>) -> Seq<Field> {
    match value {
        Some(text) => seq![(key, text)],
        None => Seq::empty(),
    }
}

/// A number that may be absent, in decimal digits.
pub open spec fn number_text(value: Option<nat>) -> Option<Seq<char>> {
    match value {
        Some(n) => Some(decimal_digits(n)),
        None => None,
    }
}

/// A list of names that may be absent, with commas between the names.
pub open spec fn names_text(value: Option<Seq<Seq<char>>>) -> Option<Seq<char>> {
    match value {
        Some(names) => Some(joined_names(names)),
        None => None,
    }
}

/// A number of any width that may be absent, as a natural number.
pub open spec fn as_nat<T: Integer>(value: Option<T>) -> Option<nat> {
    match value {
        Some(n) => Some(n as nat),
        None => None,
    }
}

/// Who to connect as and where, and the files that are used.
pub open spec fn identity_fields(scope: ScopeView) -> Seq<Field> {
    Seq::<Field>::empty() + field_of("user"@, scope.user) + field_of(
        "port"@,
        number_text(as_nat(scope.port)),
    ) + field_of("known_hosts"@, scope.known_hosts) + field_of("private_key"@, scope.private_key)
        + field_of("openssh_cert"@, scope.openssh_cert)
}

/// The preferred algorithms.
pub open spec fn algorithm_fields(scope: ScopeView) -> Seq<Field> {
    Seq::<Field>::empty() + field_of("kex"@, names_text(scope.kex)) + field_of(
        "alg"@,
        names_text(scope.alg),
    ) + field_of("cipher"@, names_text(scope.cipher)) + field_of("mac"@, names_text(scope.mac))
}

/// The times to wait and the keepalive retries.
pub open spec fn timing_fields(scope: ScopeView) -> Seq<Field> {
    Seq::<Field>::empty() + field_of("timeout"@, number_text(as_nat(scope.timeout))) + field_of(
        "interval"@,
        number_text(as_nat(scope.interval)),
    ) + field_of("retries"@, number_text(as_nat(scope.retries)))
}

/// The attributes that a scope sets, in the order in which they are shown.
pub open spec fn scope_fields(scope: ScopeView) -> Seq<Field> {
    identity_fields(scope) + algorithm_fields(scope) + timing_fields(scope)
}

/// The attributes of a server: its address, then what its scope sets.
pub open spec fn server_fields(server: ServerView) -> Seq<Field> {
    seq![("address"@, server.address)] + scope_fields(server.scope)
}

/// The lines of a group of attributes at `depth`. At depth 0 no line has a
/// mark; deeper, the last line has the corner and the others the tee.
pub open spec fn attribute_lines(fields: Seq<Field>, depth: u8) -> Seq<LineView> {
    Seq::new(
        fields.len(),
        |i: int|
            LineView::Entry {
                depth,
                branch: if depth == 0 {
                    Branch::Plain
                } else if i == fields.len() - 1 {
                    Branch::Corner
                } else {
                    Branch::Tee
                },
                role: Role::Attribute,
                name: fields[i].0,
                value: Some(fields[i].1),
            },
    )
}

/// The line that names a scope.
pub open spec fn scope_line(name: Seq<char>) -> LineView {
    LineView::Entry { depth: 0, branch: Branch::Plain, role: Role::Scope, name, value: None }
}

/// The line that names a server, with its address where it has nothing
/// else.
pub open spec fn server_line(name: Seq<char>, depth: u8, address: Option<Seq<char>>) -> LineView {
    LineView::Entry { depth, branch: Branch::Plain, role: Role::Server, name, value: address }
}

/// The lines of the servers from `from` on that are an address alone.
pub open spec fn address_lines(
    list: Seq<(Seq<char>, ScopedServerView)>,
    depth: u8,
    from: int,
) -> Seq<LineView>
    decreases list.len() - from,
{
    if from < 0 || from >= list.len() {
        Seq::empty()
    } else {
        match list[from].1 {
            ScopedServerView::Address(address) => seq![
                server_line(list[from].0, depth, Some(address)),
            ] + address_lines(list, depth, from + 1),
            ScopedServerView::Override(_) => address_lines(list, depth, from + 1),
        }
    }
}

/// The lines of the servers from `from` on that have attributes: for each
/// its name, then its attributes one level deeper.
pub open spec fn override_lines(
    list: Seq<(Seq<char>, ScopedServerView)>,
    depth: u8,
    from: int,
) -> Seq<LineView>
    decreases list.len() - from,
{
    if from < 0 || from >= list.len() {
        Seq::empty()
    } else {
        match list[from].1 {
            ScopedServerView::Address(_) => override_lines(list, depth, from + 1),
            ScopedServerView::Override(server) => seq![server_line(list[from].0, depth, None)]
                + attribute_lines(server_fields(server), (depth + 1) as u8) + override_lines(
                list,
                depth,
                from + 1,
            ),
        }
    }
}

/// The lines of a list of servers: first those that are an address alone,
/// then those with attributes.
pub open spec fn server_lines(list: Seq<(Seq<char>, ScopedServerView)>, depth: u8) -> Seq<
    LineView,
> {
    address_lines(list, depth, 0) + override_lines(list, depth, 0)
}

/// The lines of one scope with its servers.
pub open spec fn scope_block(name: Seq<char>, list: Seq<(Seq<char>, ScopedServerView)>) -> Seq<
    LineView,
> {
    seq![scope_line(name)] + server_lines(list, 1)
}

/// The lines of the scopes among the entries from `from` on.
pub open spec fn scope_blocks(entries: Seq<(Seq<char>, ServerEntryView)>, from: int) -> Seq<
    LineView,
>
    decreases entries.len() - from,
{
    if from < 0 || from >= entries.len() {
        Seq::empty()
    } else {
        match entries[from].1 {
            ServerEntryView::Scope(list) => scope_block(entries[from].0, list) + scope_blocks(
                entries,
                from + 1,
            ),
            ServerEntryView::Global(_) => scope_blocks(entries, from + 1),
        }
    }
}

/// The global servers among the entries from `from` on.
pub open spec fn globals_of(entries: Seq<(Seq<char>, ServerEntryView)>, from: int) -> Seq<
    (Seq<char>, ScopedServerView),
>
    decreases entries.len() - from,
{
    if from < 0 || from >= entries.len() {
        Seq::empty()
    } else {
        match entries[from].1 {
            ServerEntryView::Global(server) => seq![(entries[from].0, server)] + globals_of(
                entries,
                from + 1,
            ),
            ServerEntryView::Scope(_) => globals_of(entries, from + 1),
        }
    }
}

/// The lines of a listing of everything: the scopes with their servers,
/// then the global servers, with an empty line between the two where
/// neither is empty.
pub open spec fn all_lines(entries: Seq<(Seq<char>, ServerEntryView)>) -> Seq<LineView> {
    let blocks = scope_blocks(entries, 0);
    let globals = globals_of(entries, 0);
    blocks + (if blocks.len() > 0 && globals.len() > 0 {
        seq![LineView::Blank]
    } else {
        Seq::empty()
    }) + server_lines(globals, 0)
}

/// The lines of the scopes from `from` on: for each its name, then its
/// attributes, or an empty line where it sets none.
pub open spec fn scopes_lines(scopes: Seq<(Seq<char>, ScopeView)>, from: int) -> Seq<LineView>
    decreases scopes.len() - from,
{
    if from < 0 || from >= scopes.len() {
        Seq::empty()
    } else {
        let fields = scope_fields(scopes[from].1);
        seq![scope_line(scopes[from].0)] + (if fields.len() == 0 {
            seq![LineView::Blank]
        } else {
            attribute_lines(fields, 1)
        }) + scopes_lines(scopes, from + 1)
    }
}

/// The lines of a listing of the scopes: the global defaults without
/// marks and an empty line after them, where there are defaults, then the
/// scopes.
pub open spec fn all_scopes_lines(
    default: Option<ScopeView>,
    scopes: Seq<(Seq<char>, ScopeView)>,
) -> Seq<LineView> {
    (match default {
        Some(scope) => attribute_lines(scope_fields(scope), 0) + seq![LineView::Blank],
        None => Seq::empty(),
    }) + scopes_lines(scopes, 0)
}

/// What a listing holds, as mathematical values.
pub enum LsResultView {
    All(Seq<(Seq<char>, ServerEntryView)>),
    AllScopes(Option<ScopeView>, Seq<(Seq<char>, ScopeView)>),
    Scope(Seq<char>, Seq<(Seq<char>, ScopedServerView)>),
}

impl View for LsResult {
    type V = LsResultView;

    open spec fn view(&self) -> LsResultView {
        match self {
            LsResult::All(servers) => LsResultView::All(entry_views(server_entries(*servers))),
            LsResult::AllScopes(default, scopes) => LsResultView::AllScopes(
                match default {
                    Some(scope) => Some(scope@),
                    None => None,
                },
                scope_views(scope_entries(*scopes)),
            ),
            LsResult::Scope(name, servers) => LsResultView::Scope(
                name@,
                scoped_views(scoped_entries(*servers)),
            ),
        }
    }
}

/// The lines of a listing.
pub open spec fn listing_lines(listing: LsResultView) -> Seq<LineView> {
    match listing {
        LsResultView::All(entries) => all_lines(entries),
        LsResultView::AllScopes(default, scopes) => all_scopes_lines(default, scopes),
        LsResultView::Scope(name, list) => scope_block(name, list),
    }
}

/// The names with a comma between each two.
pub fn join_names(names: &Vec<String>) -> (text: String)
    ensures
        text@ == joined_names(names.deep_view()),
{
    let ghost all = names.deep_view();
    let mut text = String::new();
    let mut i: usize = 0;
    assert(all.take(0) =~= Seq::<Seq<char>>::empty());
    while i < names.len()
        invariant
            i <= names.len(),
            all == names.deep_view(),
            text@ == joined_names(all.take(i as int)),
        decreases names.len() - i,
    {
        let ghost before = all.take(i as int);
        let ghost longer = all.take(i + 1);
        assert(longer.drop_last() =~= before);
        assert(longer.last() == names[i as int]@);
        if i > 0 {
            push_char(&mut text, ',');
        }
        text.append(names[i].as_str());
        assert(text@ =~= joined_names(longer)) by {
            if i == 0 {
                assert(before.len() == 0);
                assert(text@ =~= names[i as int]@);
            } else {
                assert(text@ =~= joined_names(before) + seq![','] + names[i as int]@);
            }
        }
        i = i + 1;
    }
    assert(all.take(i as int) =~= all);
    text
}

/// Adds the field of an attribute where it is present.
fn push_field(fields: &mut Vec<(String, String)>, key: &str, value: Option<String>)
    ensures
        fields_view(final(fields)@) == fields_view(old(fields)@) + field_of(
            key@,
            value.deep_view(),
        ),
{
    match value {
        Some(text) => {
            fields.push((key.to_owned(), text));
            assert(fields_view(fields@) =~= fields_view(old(fields)@) + seq![(key@, text@)]);
        },
        None => {
            assert(fields_view(fields@) =~= fields_view(old(fields)@) + Seq::<Field>::empty());
        },
    }
}

fn names_copy(value: &Option<Vec<String>>) -> (text: Option<String>)
    ensures
        text.deep_view() == names_text(value.deep_view()),
{
    match value {
        Some(names) => Some(join_names(names)),
        None => None,
    }
}

fn number_copy(value: Option<u64>) -> (text: Option<String>)
    ensures
        text.deep_view() == number_text(as_nat(value)),
{
    match value {
        Some(n) => Some(decimal_text(n)),
        None => None,
    }
}

fn widen_port(value: Option<u16>) -> (wide: Option<u64>)
    ensures
        as_nat(wide) == as_nat(value),
{
    match value {
        Some(n) => Some(n as u64),
        None => None,
    }
}

fn widen_count(value: Option<usize>) -> (wide: Option<u64>)
    ensures
        as_nat(wide) == as_nat(value),
{
    match value {
        Some(n) => Some(n as u64),
        None => None,
    }
}

fn push_identity_fields(fields: &mut Vec<(String, String)>, scope: &Scope)
    ensures
        fields_view(final(fields)@) == fields_view(old(fields)@) + identity_fields(scope@),
{
    let ghost start = fields_view(fields@);
    let ghost gathered = Seq::<Field>::empty();
    assert(fields_view(fields@) =~= start + gathered);
    push_field(fields, "user", copy_opt_text(&scope.user));
    proof {
        let field = field_of("user"@, scope@.user);
        assert(start + gathered + field =~= start + (gathered + field));
        gathered = gathered + field;
    }
    push_field(fields, "port", number_copy(widen_port(scope.port)));
    proof {
        let field = field_of("port"@, number_text(as_nat(scope@.port)));
        assert(start + gathered + field =~= start + (gathered + field));
        gathered = gathered + field;
    }
    push_field(fields, "known_hosts", copy_opt_text(&scope.known_hosts));
    proof {
        let field = field_of("known_hosts"@, scope@.known_hosts);
        assert(start + gathered + field =~= start + (gathered + field));
        gathered = gathered + field;
    }
    push_field(fields, "private_key", copy_opt_text(&scope.private_key));
    proof {
        let field = field_of("private_key"@, scope@.private_key);
        assert(start + gathered + field =~= start + (gathered + field));
        gathered = gathered + field;
    }
    push_field(fields, "openssh_cert", copy_opt_text(&scope.openssh_cert));
    proof {
        let field = field_of("openssh_cert"@, scope@.openssh_cert);
        assert(start + gathered + field =~= start + (gathered + field));
        gathered = gathered + field;
    }
    assert(gathered == identity_fields(scope@));
}

fn push_algorithm_fields(fields: &mut Vec<(String, String)>, scope: &Scope)
    ensures
        fields_view(final(fields)@) == fields_view(old(fields)@) + algorithm_fields(scope@),
{
    let ghost start = fields_view(fields@);
    let ghost gathered = Seq::<Field>::empty();
    assert(fields_view(fields@) =~= start + gathered);
    push_field(fields, "kex", names_copy(&scope.kex));
    proof {
        let field = field_of("kex"@, names_text(scope@.kex));
        assert(start + gathered + field =~= start + (gathered + field));
        gathered = gathered + field;
    }
    push_field(fields, "alg", names_copy(&scope.alg));
    proof {
        let field = field_of("alg"@, names_text(scope@.alg));
        assert(start + gathered + field =~= start + (gathered + field));
        gathered = gathered + field;
    }
    push_field(fields, "cipher", names_copy(&scope.cipher));
    proof {
        let field = field_of("cipher"@, names_text(scope@.cipher));
        assert(start + gathered + field =~= start + (gathered + field));
        gathered = gathered + field;
    }
    push_field(fields, "mac", names_copy(&scope.mac));
    proof {
        let field = field_of("mac"@, names_text(scope@.mac));
        assert(start + gathered + field =~= start + (gathered + field));
        gathered = gathered + field;
    }
    assert(gathered == algorithm_fields(scope@));
}

fn push_timing_fields(fields: &mut Vec<(String, String)>, scope: &Scope)
    ensures
        fields_view(final(fields)@) == fields_view(old(fields)@) + timing_fields(scope@),
{
    let ghost start = fields_view(fields@);
    let ghost gathered = Seq::<Field>::empty();
    assert(fields_view(fields@) =~= start + gathered);
    push_field(fields, "timeout", number_copy(scope.timeout));
    proof {
        let field = field_of("timeout"@, number_text(as_nat(scope@.timeout)));
        assert(start + gathered + field =~= start + (gathered + field));
        gathered = gathered + field;
    }
    push_field(fields, "interval", number_copy(scope.interval));
    proof {
        let field = field_of("interval"@, number_text(as_nat(scope@.interval)));
        assert(start + gathered + field =~= start + (gathered + field));
        gathered = gathered + field;
    }
    push_field(fields, "retries", number_copy(widen_count(scope.retries)));
    proof {
        let field = field_of("retries"@, number_text(as_nat(scope@.retries)));
        assert(start + gathered + field =~= start + (gathered + field));
        gathered = gathered + field;
    }
    assert(gathered == timing_fields(scope@));
}

/// Adds the attributes that a scope sets, in the order in which they are
/// shown.
fn push_scope_fields(fields: &mut Vec<(String, String)>, scope: &Scope)
    ensures
        fields_view(final(fields)@) == fields_view(old(fields)@) + scope_fields(scope@),
{
    let ghost start = fields_view(fields@);
    push_identity_fields(fields, scope);
    push_algorithm_fields(fields, scope);
    push_timing_fields(fields, scope);
    assert(start + identity_fields(scope@) + algorithm_fields(scope@) + timing_fields(scope@)
        =~= start + scope_fields(scope@));
}

/// Adds the lines of a group of attributes at `depth`.
fn push_attribute_lines(lines: &mut Vec<Line>, fields: &Vec<(String, String)>, depth: u8)
    ensures
        lines_view(final(lines)@) == lines_view(old(lines)@) + attribute_lines(
            fields_view(fields@),
            depth,
        ),
{
    let ghost start = lines_view(lines@);
    let ghost all = fields_view(fields@);
    let ghost wanted = attribute_lines(all, depth);
    let count = fields.len();
    let mut i: usize = 0;
    assert(lines_view(lines@) =~= start + wanted.take(0));
    while i < count
        invariant
            i <= count == fields.len(),
            all == fields_view(fields@),
            wanted == attribute_lines(all, depth),
            lines_view(lines@) == start + wanted.take(i as int),
        decreases count - i,
    {
        let ghost before = lines_view(lines@);
        let branch = if depth == 0 {
            Branch::Plain
        } else if i == count - 1 {
            Branch::Corner
        } else {
            Branch::Tee
        };
        let line = Line::Entry {
            depth,
            branch,
            role: Role::Attribute,
            name: fields[i].0.clone(),
            value: Some(fields[i].1.clone()),
        };
        assert(all[i as int] == (fields@[i as int].0@, fields@[i as int].1@));
        assert(line@ == wanted[i as int]);
        lines.push(line);
        assert(lines_view(lines@) =~= before.push(wanted[i as int]));
        assert(start + wanted.take(i + 1) =~= (start + wanted.take(i as int)).push(
            wanted[i as int],
        ));
        i = i + 1;
    }
    assert(wanted.take(count as int) =~= wanted);
}

/// The views of a list of servers with their names.
pub open spec fn pairs_view(pairs: Seq<(&String, &ScopedServer)>) -> Seq<
    (Seq<char>, ScopedServerView),
> {
    Seq::new(pairs.len(), |i: int| (pairs[i].0@, pairs[i].1@))
}

/// Adds the lines of a list of servers at `depth`.
fn push_server_lines(lines: &mut Vec<Line>, list: &Vec<(&String, &ScopedServer)>, depth: u8)
    requires
        depth < 255,
    ensures
        lines_view(final(lines)@) == lines_view(old(lines)@) + server_lines(
            pairs_view(list@),
            depth,
        ),
{
    let ghost start = lines_view(lines@);
    let ghost all = pairs_view(list@);
    let ghost done = Seq::<LineView>::empty();
    let mut i: usize = 0;
    assert(start + done =~= start);
    while i < list.len()
        invariant
            i <= list.len(),
            all == pairs_view(list@),
            lines_view(lines@) == start + done,
            done + address_lines(all, depth, i as int) == address_lines(all, depth, 0),
        decreases list.len() - i,
    {
        let ghost before = lines_view(lines@);
        let (name, entry) = list[i];
        assert(all[i as int] == (name@, entry@));
        if let ScopedServer::Address(address) = entry {
            let line = Line::Entry {
                depth,
                branch: Branch::Plain,
                role: Role::Server,
                name: name.clone(),
                value: Some(address.clone()),
            };
            lines.push(line);
            proof {
                let one = server_line(name@, depth, Some(address@));
                assert(lines_view(lines@) =~= before.push(one));
                assert(done.push(one) + address_lines(all, depth, i + 1) =~= done + (seq![one]
                    + address_lines(all, depth, i + 1)));
                assert(start + done.push(one) =~= (start + done).push(one));
                done = done.push(one);
            }
        }
        i = i + 1;
    }
    let ghost addresses = address_lines(all, depth, 0);
    assert(done =~= addresses) by {
        assert(address_lines(all, depth, i as int) =~= Seq::<LineView>::empty());
    }
    let ghost more = Seq::<LineView>::empty();
    assert(start + addresses + more =~= start + done);
    i = 0;
    while i < list.len()
        invariant
            i <= list.len(),
            depth < 255,
            all == pairs_view(list@),
            lines_view(lines@) == start + addresses + more,
            more + override_lines(all, depth, i as int) == override_lines(all, depth, 0),
        decreases list.len() - i,
    {
        let ghost before = lines_view(lines@);
        let (name, entry) = list[i];
        assert(all[i as int] == (name@, entry@));
        if let ScopedServer::Override(server) = entry {
            let line = Line::Entry {
                depth,
                branch: Branch::Plain,
                role: Role::Server,
                name: name.clone(),
                value: None,
            };
            lines.push(line);
            let mut fields: Vec<(String, String)> = Vec::new();
            fields.push(("address".to_owned(), server.address.clone()));
            assert(fields_view(fields@) =~= seq![("address"@, server.address@)]);
            push_scope_fields(&mut fields, &server.scope);
            assert(fields_view(fields@) == server_fields(server@));
            let ghost named = lines_view(lines@);
            push_attribute_lines(lines, &fields, depth + 1);
            proof {
                let one = server_line(name@, depth, None);
                let block = seq![one] + attribute_lines(
                    server_fields(server@),
                    (depth + 1) as u8,
                );
                assert(named =~= before.push(one));
                assert(lines_view(lines@) =~= before + block);
                assert(more + block + override_lines(all, depth, i + 1) =~= more + (block
                    + override_lines(all, depth, i + 1)));
                assert(start + addresses + (more + block) =~= start + addresses + more + block);
                more = more + block;
            }
        }
        i = i + 1;
    }
    assert(more =~= override_lines(all, depth, 0)) by {
        assert(override_lines(all, depth, i as int) =~= Seq::<LineView>::empty());
    }
    assert(start + addresses + more =~= start + server_lines(all, depth));
}

/// The servers of a map with their names, in the order of the map.
fn pairs_of(map: &IndexMap<String, ScopedServer>) -> (pairs: Vec<(&String, &ScopedServer)>)
    ensures
        pairs_view(pairs@) == scoped_views(scoped_entries(*map)),
{
    let mut pairs: Vec<(&String, &ScopedServer)> = Vec::new();
    let count = scoped_len(map);
    let mut i: usize = 0;
    while i < count
        invariant
            i <= count == scoped_entries(*map).len(),
            pairs.len() == i,
            forall|j: int|
                0 <= j < i ==> (#[trigger] pairs@[j].0@, *pairs@[j].1) == scoped_entries(*map)[j],
        decreases count - i,
    {
        if let Some(pair) = scoped_at(map, i) {
            pairs.push(pair);
        }
        i = i + 1;
    }
    assert(pairs_view(pairs@) =~= scoped_views(scoped_entries(*map)));
    pairs
}

/// Adds the lines of one scope with its servers.
fn push_scope_block(lines: &mut Vec<Line>, name: &String, map: &IndexMap<String, ScopedServer>)
    ensures
        lines_view(final(lines)@) == lines_view(old(lines)@) + scope_block(
            name@,
            scoped_views(scoped_entries(*map)),
        ),
{
    let ghost start = lines_view(lines@);
    lines.push(
        Line::Entry {
            depth: 0,
            branch: Branch::Plain,
            role: Role::Scope,
            name: name.clone(),
            value: None,
        },
    );
    assert(lines_view(lines@) =~= start.push(scope_line(name@)));
    let pairs = pairs_of(map);
    push_server_lines(lines, &pairs, 1);
    assert(lines_view(lines@) =~= start + scope_block(name@, scoped_views(scoped_entries(*map))));
}

/// The lines of a listing of everything.
fn lay_all(servers: &IndexMap<String, ServerEntry>) -> (lines: Vec<Line>)
    ensures
        lines_view(lines@) == all_lines(entry_views(server_entries(*servers))),
{
    let ghost entries = entry_views(server_entries(*servers));
    let mut lines: Vec<Line> = Vec::new();
    let mut globals: Vec<(&String, &ScopedServer)> = Vec::new();
    let count = servers_len(servers);
    let mut scopes: usize = 0;
    let mut i: usize = 0;
    assert(lines_view(lines@) + scope_blocks(entries, 0) =~= scope_blocks(entries, 0));
    assert(pairs_view(globals@) + globals_of(entries, 0) =~= globals_of(entries, 0));
    while i < count
        invariant
            i <= count == entries.len(),
            entries == entry_views(server_entries(*servers)),
            scopes <= i,
            scopes == 0 <==> lines.len() == 0,
            lines_view(lines@) + scope_blocks(entries, i as int) == scope_blocks(entries, 0),
            pairs_view(globals@) + globals_of(entries, i as int) == globals_of(entries, 0),
        decreases count - i,
    {
        let ghost before = lines_view(lines@);
        let ghost found = pairs_view(globals@);
        match servers_at(servers, i) {
            Some((name, ServerEntry::Scope(map))) => {
                assert(entries[i as int] == (
                    name@,
                    ServerEntryView::Scope(scoped_views(scoped_entries(*map))),
                ));
                push_scope_block(&mut lines, name, map);
                scopes = scopes + 1;
                proof {
                    let block = scope_block(name@, scoped_views(scoped_entries(*map)));
                    assert(before + block + scope_blocks(entries, i + 1) =~= before + (block
                        + scope_blocks(entries, i + 1)));
                }
            },
            Some((name, ServerEntry::Global(server))) => {
                assert(entries[i as int] == (name@, ServerEntryView::Global(server@)));
                globals.push((name, server));
                proof {
                    let one = (name@, server@);
                    assert(pairs_view(globals@) =~= found.push(one));
                    assert(found.push(one) + globals_of(entries, i + 1) =~= found + (seq![one]
                        + globals_of(entries, i + 1)));
                }
            },
            None => {},
        }
        i = i + 1;
    }
    proof {
        assert(scope_blocks(entries, i as int) =~= Seq::<LineView>::empty());
        assert(globals_of(entries, i as int) =~= Seq::<(Seq<char>, ScopedServerView)>::empty());
        assert(lines_view(lines@) =~= scope_blocks(entries, 0));
        assert(pairs_view(globals@) =~= globals_of(entries, 0));
    }
    let ghost blocks = lines_view(lines@);
    if scopes > 0 && globals.len() > 0 {
        lines.push(Line::Blank);
        assert(lines_view(lines@) =~= blocks + seq![LineView::Blank]);
    } else {
        assert(lines_view(lines@) =~= blocks + Seq::<LineView>::empty());
    }
    push_server_lines(&mut lines, &globals, 0);
    lines
}

/// The lines of a listing of the scopes.
fn lay_scopes(default: &Option<Scope>, scopes: &IndexMap<String, Scope>) -> (lines: Vec<Line>)
    ensures
        lines_view(lines@) == all_scopes_lines(
            match default {
                Some(scope) => Some(scope@),
                None => None,
            },
            scope_views(scope_entries(*scopes)),
        ),
{
    let ghost all = scope_views(scope_entries(*scopes));
    let mut lines: Vec<Line> = Vec::new();
    assert(lines_view(lines@) =~= Seq::<LineView>::empty());
    if let Some(scope) = default {
        let mut fields: Vec<(String, String)> = Vec::new();
        assert(fields_view(fields@) =~= Seq::<Field>::empty());
        push_scope_fields(&mut fields, scope);
        assert(fields_view(fields@) =~= scope_fields(scope@));
        push_attribute_lines(&mut lines, &fields, 0);
        let ghost shown = lines_view(lines@);
        lines.push(Line::Blank);
        assert(lines_view(lines@) =~= attribute_lines(scope_fields(scope@), 0) + seq![
            LineView::Blank,
        ]) by {
            assert(lines_view(lines@) =~= shown.push(LineView::Blank));
            assert(shown =~= attribute_lines(scope_fields(scope@), 0));
        }
    }
    let ghost head = lines_view(lines@);
    let ghost done = Seq::<LineView>::empty();
    let count = scopes_len(scopes);
    let mut i: usize = 0;
    assert(head + done =~= head);
    while i < count
        invariant
            i <= count == all.len(),
            all == scope_views(scope_entries(*scopes)),
            lines_view(lines@) == head + done,
            done + scopes_lines(all, i as int) == scopes_lines(all, 0),
        decreases count - i,
    {
        let ghost before = lines_view(lines@);
        if let Some((name, scope)) = scopes_at(scopes, i) {
            assert(all[i as int] == (name@, scope@));
            lines.push(
                Line::Entry {
                    depth: 0,
                    branch: Branch::Plain,
                    role: Role::Scope,
                    name: name.clone(),
                    value: None,
                },
            );
            let mut fields: Vec<(String, String)> = Vec::new();
            assert(fields_view(fields@) =~= Seq::<Field>::empty());
            push_scope_fields(&mut fields, scope);
            assert(fields_view(fields@) =~= scope_fields(scope@));
            let ghost named = lines_view(lines@);
            assert(named =~= before.push(scope_line(name@)));
            if fields.len() == 0 {
                lines.push(Line::Blank);
                assert(lines_view(lines@) =~= named + seq![LineView::Blank]);
            } else {
                push_attribute_lines(&mut lines, &fields, 1);
            }
            proof {
                let shown = scope_fields(scope@);
                let block = seq![scope_line(name@)] + (if shown.len() == 0 {
                    seq![LineView::Blank]
                } else {
                    attribute_lines(shown, 1)
                });
                assert(lines_view(lines@) =~= before + block);
                assert(done + block + scopes_lines(all, i + 1) =~= done + (block + scopes_lines(
                    all,
                    i + 1,
                )));
                assert(head + (done + block) =~= head + done + block);
                done = done + block;
            }
        }
        i = i + 1;
    }
    assert(done =~= scopes_lines(all, 0)) by {
        assert(scopes_lines(all, i as int) =~= Seq::<LineView>::empty());
    }
    lines
}

/// Lays a listing out in lines: scopes at the margin, their servers one
/// level in, attributes one level deeper than what they belong to.
pub fn layout(listing: &LsResult) -> (lines: Vec<Line>)
    ensures
        lines_view(lines@) == listing_lines(listing@),
{
    match listing {
        LsResult::All(servers) => lay_all(servers),
        LsResult::AllScopes(default, scopes) => lay_scopes(default, scopes),
        LsResult::Scope(name, servers) => {
            let mut lines: Vec<Line> = Vec::new();
            assert(lines_view(lines@) =~= Seq::<LineView>::empty());
            push_scope_block(&mut lines, name, servers);
            assert(lines_view(lines@) =~= scope_block(
                name@,
                scoped_views(scoped_entries(*servers)),
            ));
            lines
        },
    }
}

/// The white space before a line at `depth`: two blanks for each level.
pub open spec fn indent(depth: nat) -> Seq<char>
    decreases depth,
{
    if depth == 0 {
        Seq::empty()
    } else {
        indent((depth - 1) as nat) + "  "@
    }
}

/// The mark of a branch.
pub open spec fn mark(branch: Branch) -> Seq<char> {
    match branch {
        Branch::Plain => Seq::empty(),
        Branch::Tee => "├─╴"@,
        Branch::Corner => "└─╴"@,
    }
}

/// What follows a name: a slash after that of a scope, a colon after any
/// other.
pub open spec fn suffix(role: Role) -> Seq<char> {
    match role {
        Role::Scope => "/"@,
        _ => ":"@,
    }
}

impl LineView {
    /// The line as plain text, without the line feed that ends it.
    pub open spec fn text(self) -> Seq<char> {
        match self {
            LineView::Blank => Seq::empty(),
            LineView::Entry { depth, branch, role, name, value } => indent(depth as nat) + mark(
                branch,
            ) + name + suffix(role) + (match value {
                Some(text) => " "@ + text,
                None => Seq::empty(),
            }),
        }
    }
}

impl Line {
    /// The line as plain text, without the line feed that ends it.
    pub fn text(&self) -> (text: String)
        ensures
            text@ == self@.text(),
    {
        match self {
            Line::Blank => String::new(),
            Line::Entry { depth, branch, role, name, value } => {
                let mut text = String::new();
                let mut level: u8 = 0;
                while level < *depth
                    invariant
                        level <= *depth,
                        text@ == indent(level as nat),
                    decreases *depth - level,
                {
                    text.append("  ");
                    level = level + 1;
                }
                match branch {
                    Branch::Plain => {},
                    Branch::Tee => text.append("├─╴"),
                    Branch::Corner => text.append("└─╴"),
                }
                text.append(name.as_str());
                match role {
                    Role::Scope => text.append("/"),
                    _ => text.append(":"),
                }
                match value {
                    Some(shown) => {
                        text.append(" ");
                        text.append(shown.as_str());
                        assert(text@ =~= self@.text());
                    },
                    None => {
                        assert(text@ =~= self@.text());
                    },
                }
                text
            },
        }
    }
}

} // verus!
