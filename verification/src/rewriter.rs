//! The schema-aware query rewriter.
//!
//! A statement of the shape `SELECT * FROM <table>` is rewritten to an
//! explicit column list in which every column whose storage type the wire
//! decoder cannot take (an aliased type, or the date-only type) is cast to a
//! type that it can. The match is lexical and permissive; whatever does not
//! match, names no table, or needs no cast is left exactly as it was.

use vstd::prelude::*;
use vstd::string::*;
use crate::text::{
    contains, find, first_occurrence, has, has_char, is_space, is_whitespace,
    lemma_first_occurrence_contains, lemma_first_occurrence_from, lemma_skip_spaces,
    lemma_skip_word, lemma_skip_word_shift, lemma_strip_trailing, lemma_strip_trailing_shift,
    lemma_trim, lemma_trimmed_end, lemma_untrimmed, lower, lowered,
    matches_at, occurs_at, push_char, push_range, skip_spaces, skip_spaces_from, skip_word,
    skip_word_from, starts_with, strip_trailing, strip_trailing_of, to_chars, to_lowered, trim,
    trimmed_chars, trimmed_end,
};

verus! {

/// The storage type id of the date-only type in the server's type catalog.
pub const DATE_TYPE_ID: u8 = 40;

/// One column of a table or view as the server's catalog describes it. A
/// field is `None` where the catalog row held a null or a value of another
/// type.
pub struct ColumnTypeDescriptor {
    /// The column's name.
    pub name: Option<String>,
    /// The name of the declared type, which may be an alias.
    pub declared_type: Option<String>,
    /// The id of the underlying storage type.
    pub storage_type_id: Option<u8>,
    /// The id of the declared type.
    pub declared_type_id: Option<i32>,
    /// The name of the underlying storage type.
    pub storage_type: Option<String>,
}

impl ColumnTypeDescriptor {
    /// Whether the declared type is an alias: both ids are known and differ.
    pub open spec fn is_alias(&self) -> bool {
        &&& self.storage_type_id matches Some(storage)
        &&& self.declared_type_id matches Some(declared)
        &&& storage as int != declared as int
    }

    /// The type that the column must be cast to, if any: `datetime` for the
    /// date-only type, else the storage type's name for an alias whose
    /// storage type has a name.
    pub open spec fn cast_target(&self) -> Option<Seq<char>> {
        if self.storage_type_id == Some(DATE_TYPE_ID) {
            Some("datetime"@)
        } else if self.is_alias() && self.storage_type is Some && self.storage_type->0@.len() > 0 {
            Some(self.storage_type->0@)
        } else {
            None
        }
    }

    /// Whether the column appears in a rewritten statement as a cast.
    pub open spec fn needs_cast(&self) -> bool {
        self.name is Some && self.cast_target() is Some
    }

    /// The column as it stands in the rewritten column list.
    pub open spec fn expression(&self) -> Seq<char>
        recommends
            self.name is Some,
    {
        column_expression(self.name->0@, self.cast_target())
    }

    /// Whether the declared type is an alias.
    pub fn alias(&self) -> (r: bool)
        ensures
            r == self.is_alias(),
    {
        match (self.storage_type_id, self.declared_type_id) {
            (Some(storage), Some(declared)) => storage as i32 != declared,
            _ => false,
        }
    }
}

/// A column in an explicit column list: bracketed, and cast where a target
/// type is given.
pub open spec fn column_expression(name: Seq<char>, target: Option<Seq<char>>) -> Seq<char> {
    match target {
        Some(ty) => "CAST(["@ + name + "] AS "@ + ty + ") AS ["@ + name + "]"@,
        None => "["@ + name + "]"@,
    }
}

/// The expressions of the named columns among `cols`, in order.
pub open spec fn expressions(cols: Seq<ColumnTypeDescriptor>) -> Seq<Seq<char>>
    decreases cols.len(),
{
    if cols.len() == 0 {
        Seq::empty()
    } else if cols.last().name is Some {
        expressions(cols.drop_last()).push(cols.last().expression())
    } else {
        expressions(cols.drop_last())
    }
}

/// `parts` joined by `", "`.
pub open spec fn comma_joined(parts: Seq<Seq<char>>) -> Seq<char>
    decreases parts.len(),
{
    if parts.len() == 0 {
        Seq::empty()
    } else if parts.len() == 1 {
        parts[0]
    } else {
        comma_joined(parts.drop_last()) + ", "@ + parts.last()
    }
}

/// The explicit column list for `cols`.
pub open spec fn column_list(cols: Seq<ColumnTypeDescriptor>) -> Seq<char> {
    comma_joined(expressions(cols))
}

/// Whether at least one named column among `cols` needs a cast.
pub open spec fn any_cast(cols: Seq<ColumnTypeDescriptor>) -> bool {
    exists|i: int| 0 <= i < cols.len() && (#[trigger] cols[i]).needs_cast()
}

/// The strict prefix shape: `select`, whitespace, `*`, whitespace, `from`,
/// on a text that is trimmed and in lower case.
pub open spec fn spaced_prefix(t: Seq<char>) -> bool {
    let star = skip_spaces(t, 6);
    let from = skip_spaces(t, star + 1);
    &&& starts_with(t, "select"@)
    &&& 6 < t.len() && is_space(t[6])
    &&& occurs_at(t, "*"@, star)
    &&& star + 1 < t.len() && is_space(t[star + 1])
    &&& occurs_at(t, "from"@, from)
}

/// The prefix shape without any whitespace: `select*from`.
pub open spec fn tight_prefix(t: Seq<char>) -> bool {
    starts_with(t, "select*from"@)
}

/// The permissive shape: the three tokens stand somewhere in the text.
pub open spec fn tokens_co_occur(t: Seq<char>) -> bool {
    contains(t, "select"@) && contains(t, "*"@) && contains(t, "from"@)
}

/// Whether `sql` counts as a `SELECT * FROM <table>` statement. Case is
/// ignored for the ASCII letters, and whitespace at both ends.
pub open spec fn is_select_star(sql: Seq<char>) -> bool {
    let t = lowered(trim(sql));
    spaced_prefix(t) || tight_prefix(t) || tokens_co_occur(t)
}

/// Where the table's name starts in the trimmed statement `t`: at the first
/// character that is no whitespace after the first `from`.
pub open spec fn table_start(t: Seq<char>) -> Option<int> {
    match first_occurrence(lowered(t), "from"@) {
        Some(p) => Some(skip_spaces(t, p + 4)),
        None => None,
    }
}

/// Where the table's name ends in `t` when it starts at `start`: at the end
/// of the word, before any statement terminators that close it.
pub open spec fn table_end(t: Seq<char>, start: int) -> int {
    strip_trailing(t, ';', start, skip_word(t, start))
}

/// The table or view that `sql` selects from: the token after the first
/// `from`, without trailing `;`. `None` where `sql` has not the shape or the
/// token is empty.
pub open spec fn table_name(sql: Seq<char>) -> Option<Seq<char>> {
    let t = trim(sql);
    if !is_select_star(sql) {
        None
    } else {
        match table_start(t) {
            Some(start) => if start < table_end(t, start) {
                Some(t.subrange(start, table_end(t, start)))
            } else {
                None
            },
            None => None,
        }
    }
}

/// What follows the table's name in the statement, verbatim.
pub open spec fn remainder(sql: Seq<char>) -> Seq<char>
    recommends
        table_name(sql) is Some,
{
    let t = trim(sql);
    t.skip(table_end(t, table_start(t)->0))
}

/// `s` with every single quote doubled, as a string literal of the server
/// needs it.
pub open spec fn doubled_quotes(s: Seq<char>) -> Seq<char>
    decreases s.len(),
{
    if s.len() == 0 {
        Seq::empty()
    } else if s.last() == '\'' {
        doubled_quotes(s.drop_last()).push('\'').push('\'')
    } else {
        doubled_quotes(s.drop_last()).push(s.last())
    }
}

/// Whether `s` can stand between the quotes of a string literal of the
/// server without ending it: every single quote in it is followed by a
/// second one, with which it stands for one quote.
pub open spec fn stays_quoted(s: Seq<char>) -> bool
    decreases s.len(),
{
    if s.len() == 0 {
        true
    } else if s[0] != '\'' {
        stays_quoted(s.skip(1))
    } else {
        s.len() >= 2 && s[1] == '\'' && stays_quoted(s.skip(2))
    }
}

/// Doubling the quotes of a text goes character by character from the
/// front as well as from the back.
pub proof fn lemma_doubled_quotes_from_the_front(s: Seq<char>)
    requires
        s.len() > 0,
    ensures
        doubled_quotes(s) == doubled_quotes(s.take(1)) + doubled_quotes(s.skip(1)),
        doubled_quotes(s.take(1)) == if s[0] == '\'' {
            seq!['\'', '\'']
        } else {
            seq![s[0]]
        },
    decreases s.len(),
{
    let one = s.take(1);
    assert(one.drop_last() =~= Seq::<char>::empty());
    assert(doubled_quotes(one.drop_last()) =~= Seq::<char>::empty());
    assert(doubled_quotes(one) =~= if s[0] == '\'' {
        seq!['\'', '\'']
    } else {
        seq![s[0]]
    });
    if s.len() == 1 {
        assert(s.skip(1) =~= Seq::<char>::empty());
        assert(one =~= s);
        assert(doubled_quotes(s) =~= doubled_quotes(one) + doubled_quotes(s.skip(1)));
    } else {
        lemma_doubled_quotes_from_the_front(s.drop_last());
        assert(s.drop_last().take(1) =~= one);
        assert(s.drop_last().skip(1) =~= s.skip(1).drop_last());
        assert(s.skip(1).last() == s.last());
        assert(doubled_quotes(s) =~= doubled_quotes(one) + doubled_quotes(s.skip(1)));
    }
}

/// A table's name cannot leave the string literal that the catalog query
/// puts it in: with its quotes doubled, no quote of it ends the literal.
pub proof fn lemma_doubled_quotes_stay_quoted(s: Seq<char>)
    ensures
        stays_quoted(doubled_quotes(s)),
    decreases s.len(),
{
    if s.len() > 0 {
        lemma_doubled_quotes_from_the_front(s);
        lemma_doubled_quotes_stay_quoted(s.skip(1));
        let d = doubled_quotes(s);
        let rest = doubled_quotes(s.skip(1));
        if s[0] == '\'' {
            assert(d.skip(2) =~= rest);
        } else {
            assert(d.skip(1) =~= rest);
        }
    }
}

/// The part of the catalog query before the table's name.
pub open spec fn catalog_query_head() -> Seq<char> {
    "SELECT c.name, c.system_type_id, c.user_type_id, t.name as type_name, st.name as system_type_name FROM sys.columns c INNER JOIN sys.objects o ON c.object_id = o.object_id INNER JOIN sys.types t ON c.user_type_id = t.user_type_id INNER JOIN sys.types st ON c.system_type_id = st.user_type_id WHERE LOWER(o.name) = LOWER('"@
}

/// The part of the catalog query after the table's name.
pub open spec fn catalog_query_tail() -> Seq<char> {
    "') AND o.type IN ('U', 'V') ORDER BY c.column_id"@
}

/// The query that asks the catalog for the columns of `table`: column
/// metadata joined with the owning object, restricted to user tables and
/// views, and with the type catalog twice, once for the declared and once
/// for the storage type, ordered by column ordinal. The name is matched
/// without regard to case.
pub open spec fn catalog_query(table: Seq<char>) -> Seq<char> {
    catalog_query_head() + doubled_quotes(table) + catalog_query_tail()
}

/// The statement with an explicit column list in place of the `*`.
pub open spec fn explicit_select(sql: Seq<char>, cols: Seq<ColumnTypeDescriptor>) -> Seq<char>
    recommends
        table_name(sql) is Some,
{
    select_head(column_list(cols)) + table_name(sql)->0 + remainder(sql)
}

/// The text that is sent to the server for `sql` when the catalog describes
/// the table's columns as `cols`.
pub open spec fn rewritten(sql: Seq<char>, cols: Seq<ColumnTypeDescriptor>) -> Seq<char> {
    if table_name(sql) is Some && any_cast(cols) {
        explicit_select(sql, cols)
    } else {
        sql
    }
}

/// A statement that has the shape holds a `*`.
pub proof fn lemma_shape_holds_star(sql: Seq<char>)
    requires
        is_select_star(sql),
    ensures
        has_char(sql, '*'),
{
    reveal_strlit("*");
    reveal_strlit("select*from");
    let core = trim(sql);
    let t = lowered(core);
    let i: int = if tight_prefix(t) {
        assert(t.subrange(0, 11)[6] == t[6]);
        6
    } else if spaced_prefix(t) {
        let star = skip_spaces(t, 6);
        assert(t.subrange(star, star + 1)[0] == t[star]);
        star
    } else {
        let k = choose|k: int| occurs_at(t, "*"@, k);
        assert(t.subrange(k, k + 1)[0] == t[k]);
        k
    };
    assert(0 <= i < t.len() && t[i] == '*');
    assert(lower(core[i]) == '*');
    assert(core[i] == '*');
    let start = skip_spaces(sql, 0);
    let end = trimmed_end(sql, sql.len() as int);
    lemma_skip_spaces(sql, 0);
    lemma_trimmed_end(sql, sql.len() as int);
    assert(core == sql.subrange(start, end));
    assert(sql[start + i] == '*');
}

/// Rewriting is idempotent on statements that hold no `*` once rewritten:
/// what a rewrite hands back is left as it is by a second rewrite,
/// whatever the catalog then says, because it has the shape no more.
pub proof fn lemma_rewrite_idempotent(
    sql: Seq<char>,
    cols: Seq<ColumnTypeDescriptor>,
    again: Seq<ColumnTypeDescriptor>,
)
    requires
        !has_char(rewritten(sql, cols), '*'),
    ensures
        rewritten(rewritten(sql, cols), again) == rewritten(sql, cols),
{
    let once = rewritten(sql, cols);
    if is_select_star(once) {
        lemma_shape_holds_star(once);
    }
}

/// The head of an explicit select: the keyword, the column list and
/// `FROM`, each followed by a space.
pub open spec fn select_head(list: Seq<char>) -> Seq<char> {
    "SELECT "@ + list + " FROM "@
}

/// In an explicit select whose column list does not hold `from` in any
/// case, the first `from` is the keyword that follows the list.
pub proof fn lemma_keyword_is_first_from(list: Seq<char>, tail: Seq<char>)
    requires
        !contains(lowered(list), "from"@),
    ensures
        first_occurrence(lowered(select_head(list) + tail), "from"@) == Some(list.len() as int + 8),
{
    reveal_strlit("SELECT ");
    reveal_strlit(" FROM ");
    reveal_strlit("from");
    let from = "from"@;
    let out = select_head(list) + tail;
    let l2 = lowered(out);
    let p2: int = list.len() as int + 8;
    let n = list.len() as int;
    assert(forall|k: int| 0 <= k < 7 ==> out[k] == "SELECT "@[k]);
    assert(forall|k: int| 0 <= k < n ==> out[7 + k] == list[k]);
    assert(forall|k: int| 0 <= k < 6 ==> out[7 + n + k] == " FROM "@[k]);
    assert(l2.subrange(p2, p2 + 4) =~= from);
    assert forall|j: int| 0 <= j < p2 implies !occurs_at(l2, from, j) by {
        if occurs_at(l2, from, j) {
            let w = l2.subrange(j, j + 4);
            if j < 7 {
                assert(w[0] == l2[j]);
            } else if j + 3 < 7 + n {
                assert(lowered(list).subrange(j - 7, j - 3) =~= w);
                assert(occurs_at(lowered(list), from, j - 7));
            } else {
                assert(w[7 + n - j] == l2[7 + n]);
            }
        }
    }
    assert(occurs_at(l2, from, p2));
    lemma_first_occurrence_from(l2, from, 0);
    match first_occurrence(l2, from) {
        Some(i) => {
            assert(!(i < p2));
            assert(!(p2 < i));
        },
        None => {},
    }
}

/// An explicit select that goes on with a trimmed text names its table
/// where that text begins, and has the table and the remainder that this
/// text has by itself.
pub proof fn lemma_explicit_select_keeps_its_table(list: Seq<char>, t: Seq<char>, a: int)
    requires
        !contains(lowered(list), "from"@),
        0 <= a < t.len(),
        !is_space(t[a]),
        !is_space(t.last()),
    ensures
        trim(select_head(list) + t.skip(a)) == select_head(list) + t.skip(a),
        table_start(select_head(list) + t.skip(a)) == Some(select_head(list).len() as int),
        table_end(select_head(list) + t.skip(a), select_head(list).len() as int) - select_head(
            list,
        ).len() == table_end(t, a) - a,
{
    reveal_strlit("SELECT ");
    reveal_strlit(" FROM ");
    let head = select_head(list);
    let tail = t.skip(a);
    let out = head + tail;
    let h = head.len() as int;
    assert(h == list.len() + 13);
    assert(out.first() == 'S');
    assert(out.last() == t.last());
    lemma_untrimmed(out);
    lemma_keyword_is_first_from(list, tail);
    assert(out[h - 1] == ' ');
    assert(out[h] == t[a]);
    assert(skip_spaces(out, h - 1) == h) by {
        reveal_with_fuel(skip_spaces, 2);
    }
    assert(out.skip(h) =~= t.skip(a));
    lemma_skip_word_shift(out, h, t, a);
    let w1 = skip_word(t, a);
    let w2 = skip_word(out, h);
    lemma_skip_word(out, h);
    lemma_skip_word(t, a);
    assert(out.subrange(h, w2) =~= t.subrange(a, w1));
    lemma_strip_trailing_shift(out, h, w2, t, a, w1, ';');
}

/// Rewriting is idempotent under one catalog: what a rewrite hands back is
/// left as it is by a second rewrite that is told the same columns,
/// provided that the column list does not hold `from` in any case, which
/// would be taken for the keyword.
pub proof fn lemma_rewrite_idempotent_under_one_catalog(
    sql: Seq<char>,
    cols: Seq<ColumnTypeDescriptor>,
)
    requires
        !contains(lowered(column_list(cols)), "from"@),
    ensures
        rewritten(rewritten(sql, cols), cols) == rewritten(sql, cols),
{
    let out = rewritten(sql, cols);
    if out != sql && is_select_star(out) {
        let from = "from"@;
        let t = trim(sql);
        let p = first_occurrence(lowered(t), from)->0;
        let a = skip_spaces(t, p + 4);
        let e = table_end(t, a);
        let list = column_list(cols);
        let head = select_head(list);
        let h = head.len() as int;
        assert(0 <= a < e <= t.len() && !is_space(t[a]) && !is_space(t.last())) by {
            reveal_strlit("from");
            lemma_first_occurrence_contains(lowered(t), from);
            lemma_skip_spaces(t, p + 4);
            lemma_skip_word(t, a);
            lemma_strip_trailing(t, ';', a, skip_word(t, a));
            lemma_trim(sql);
        }
        assert(out == head + t.skip(a)) by {
            assert(t.subrange(a, e) + t.skip(e) =~= t.skip(a));
            assert(out =~= head + t.skip(a));
        }
        lemma_explicit_select_keeps_its_table(list, t, a);
        let e2 = table_end(out, h);
        assert(e2 - h == e - a);
        assert(out.subrange(h, e2) =~= t.subrange(a, e));
        assert(out.skip(e2) =~= t.skip(e));
        assert(explicit_select(out, cols) =~= out);
    }
}

/// A statement is left as it is where it has not the shape, names no
/// table, or no described column needs a cast; so too where the catalog
/// could not be read and nothing is described.
pub proof fn lemma_rewrite_is_best_effort(sql: Seq<char>, cols: Seq<ColumnTypeDescriptor>)
    ensures
        !is_select_star(sql) ==> rewritten(sql, cols) == sql,
        table_name(sql) is None ==> rewritten(sql, cols) == sql,
        !any_cast(cols) ==> rewritten(sql, cols) == sql,
        rewritten(sql, Seq::empty()) == sql,
{
}

/// A statement as it goes to the server, and whether it differs from what
/// the caller wrote.
pub struct Rewrite {
    /// The statement to run.
    pub sql: String,
    /// Whether `sql` differs from the caller's text.
    pub changed: bool,
}

/// Whether the trimmed, lower-case text `t` has one of the three shapes.
fn has_shape(t: &Vec<char>) -> (r: bool)
    ensures
        r == (spaced_prefix(t@) || tight_prefix(t@) || tokens_co_occur(t@)),
{
    let select = to_chars("select");
    let star = to_chars("*");
    let from = to_chars("from");
    let tight = to_chars("select*from");
    proof {
        reveal_strlit("select");
        reveal_strlit("*");
        reveal_strlit("from");
    }
    if matches_at(t, &tight, 0) {
        return true;
    }
    if has(t, &select) && has(t, &star) && has(t, &from) {
        return true;
    }
    if !matches_at(t, &select, 0) {
        return false;
    }
    if !(6 < t.len() && is_whitespace(t[6])) {
        return false;
    }
    let at_star = skip_spaces_from(t, 6);
    if !matches_at(t, &star, at_star) {
        return false;
    }
    if !(at_star + 1 < t.len() && is_whitespace(t[at_star + 1])) {
        return false;
    }
    let at_from = skip_spaces_from(t, at_star + 1);
    matches_at(t, &from, at_from)
}

/// Whether `sql` counts as a `SELECT * FROM <table>` statement.
pub fn matches_select_star(sql: &str) -> (r: bool)
    ensures
        r == is_select_star(sql@),
{
    let t = trimmed_chars(sql);
    let l = to_lowered(&t);
    has_shape(&l)
}

/// The trimmed statement with the bounds of the table's name in it.
fn locate_table(sql: &str) -> (r: Option<(Vec<char>, usize, usize)>)
    ensures
        match r {
            Some((t, start, end)) => {
                &&& t@ == trim(sql@)
                &&& start < end <= t.len()
                &&& is_select_star(sql@)
                &&& table_start(t@) == Some(start as int)
                &&& table_end(t@, start as int) == end
                &&& table_name(sql@) == Some(t@.subrange(start as int, end as int))
            },
            None => table_name(sql@) is None,
        },
{
    let t = trimmed_chars(sql);
    let l = to_lowered(&t);
    if !has_shape(&l) {
        return None;
    }
    let from = to_chars("from");
    proof {
        reveal_strlit("from");
    }
    match find(&l, &from) {
        None => None,
        Some(p) => {
            proof {
                lemma_first_occurrence_contains(l@, from@);
            }
            let start = skip_spaces_from(&t, p + 4);
            let word_end = skip_word_from(&t, start);
            let end = strip_trailing_of(&t, ';', start, word_end);
            if start < end {
                Some((t, start, end))
            } else {
                None
            }
        },
    }
}

/// The table or view that `sql` selects from, if it has the shape and
/// names one.
pub fn extract_table_name(sql: &str) -> (r: Option<String>)
    ensures
        match r {
            Some(name) => table_name(sql@) == Some(name@),
            None => table_name(sql@) is None,
        },
{
    match locate_table(sql) {
        Some((t, start, end)) => {
            let mut name = String::new();
            push_range(&mut name, &t, start, end);
            Some(name)
        },
        None => None,
    }
}

/// Appends `s` to `out` with every single quote doubled.
fn push_doubled_quotes(out: &mut String, s: &Vec<char>)
    ensures
        final(out)@ == old(out)@ + doubled_quotes(s@),
{
    let mut i: usize = 0;
    while i < s.len()
        invariant
            i <= s.len(),
            out@ == old(out)@ + doubled_quotes(s@.take(i as int)),
        decreases s.len() - i,
    {
        proof {
            assert(s@.take(i + 1).drop_last() == s@.take(i as int));
        }
        if s[i] == '\'' {
            push_char(out, '\'');
        }
        push_char(out, s[i]);
        i += 1;
    }
    proof {
        assert(s@.take(s.len() as int) == s@);
    }
}

/// The query that asks the catalog for the columns of `table`.
pub fn metadata_query(table: &str) -> (q: String)
    ensures
        q@ == catalog_query(table@),
{
    let mut q = String::new();
    q.append("SELECT c.name, c.system_type_id, c.user_type_id, t.name as type_name, st.name as system_type_name FROM sys.columns c INNER JOIN sys.objects o ON c.object_id = o.object_id INNER JOIN sys.types t ON c.user_type_id = t.user_type_id INNER JOIN sys.types st ON c.system_type_id = st.user_type_id WHERE LOWER(o.name) = LOWER('");
    let chars = to_chars(table);
    push_doubled_quotes(&mut q, &chars);
    q.append("') AND o.type IN ('U', 'V') ORDER BY c.column_id");
    q
}

/// The type that `col` must be cast to, if any.
pub fn cast_type<'a>(col: &'a ColumnTypeDescriptor) -> (r: Option<&'a str>)
    ensures
        match r {
            Some(ty) => col.cast_target() == Some(ty@),
            None => col.cast_target() is None,
        },
{
    match col.storage_type_id {
        Some(id) => {
            if id == DATE_TYPE_ID {
                return Some("datetime");
            }
        },
        None => {},
    }
    if !col.alias() {
        return None;
    }
    match &col.storage_type {
        Some(name) => {
            if name.as_str().is_empty() {
                None
            } else {
                Some(name.as_str())
            }
        },
        None => None,
    }
}

/// Appends the column `name`, cast to `target` where one is given.
fn push_expression(out: &mut String, name: &str, target: Option<&str>)
    ensures
        final(out)@ == old(out)@ + column_expression(
            name@,
            match target {
                Some(ty) => Some(ty@),
                None => None,
            },
        ),
{
    match target {
        Some(ty) => {
            out.append("CAST([");
            out.append(name);
            out.append("] AS ");
            out.append(ty);
            out.append(") AS [");
            out.append(name);
            out.append("]");
            assert(out@ =~= old(out)@ + column_expression(name@, Some(ty@)));
        },
        None => {
            out.append("[");
            out.append(name);
            out.append("]");
            assert(out@ =~= old(out)@ + column_expression(name@, None));
        },
    }
}

/// The explicit column list for `cols`, and whether one of them is cast.
pub fn build_column_list(cols: &Vec<ColumnTypeDescriptor>) -> (r: (String, bool))
    ensures
        r.0@ == column_list(cols@),
        r.1 == any_cast(cols@),
{
    let mut out = String::new();
    let mut casting = false;
    let mut first = true;
    let mut i: usize = 0;
    while i < cols.len()
        invariant
            i <= cols.len(),
            out@ == column_list(cols@.take(i as int)),
            first == (expressions(cols@.take(i as int)).len() == 0),
            casting == any_cast(cols@.take(i as int)),
        decreases cols.len() - i,
    {
        let ghost before = cols@.take(i as int);
        let ghost after = cols@.take(i + 1);
        proof {
            assert(after.drop_last() == before);
            assert(after.last() == cols@[i as int]);
        }
        let col = &cols[i];
        match &col.name {
            Some(name) => {
                let target = cast_type(col);
                if !first {
                    out.append(", ");
                }
                push_expression(&mut out, name.as_str(), target);
                proof {
                    let parts = expressions(before);
                    assert(expressions(after) == parts.push(col.expression()));
                    assert(parts.push(col.expression()).drop_last() == parts);
                    assert(out@ =~= column_list(after));
                }
                if target.is_some() {
                    casting = true;
                }
                first = false;
            },
            None => {},
        }
        proof {
            if any_cast(before) {
                let k = choose|k: int| 0 <= k < before.len() && (#[trigger] before[k]).needs_cast();
                assert(after[k].needs_cast());
            }
            if any_cast(after) {
                let k = choose|k: int| 0 <= k < after.len() && (#[trigger] after[k]).needs_cast();
                if k < i {
                    assert(before[k].needs_cast());
                }
            }
            if col.needs_cast() {
                assert(after[i as int].needs_cast());
            }
        }
        i += 1;
    }
    proof {
        assert(cols@.take(cols.len() as int) == cols@);
    }
    (out, casting)
}

/// The statement to run for `sql` when the catalog describes the columns
/// of its table as `cols`: the explicit select where `sql` names a table
/// and a column needs a cast, else `sql` itself. A catalog that could not
/// be read is an empty `cols`.
pub fn rewrite(sql: &str, cols: &Vec<ColumnTypeDescriptor>) -> (r: Rewrite)
    ensures
        r.sql@ == rewritten(sql@, cols@),
        r.changed == (r.sql@ != sql@),
{
    let original = sql.to_owned();
    match locate_table(sql) {
        None => Rewrite { sql: original, changed: false },
        Some((t, start, end)) => {
            let (list, casting) = build_column_list(cols);
            if !casting {
                Rewrite { sql: original, changed: false }
            } else {
                let mut out = String::new();
                out.append("SELECT ");
                out.append(list.as_str());
                out.append(" FROM ");
                push_range(&mut out, &t, start, end);
                push_range(&mut out, &t, end, t.len());
                assert(out@ =~= explicit_select(sql@, cols@));
                let changed = !(out == original);
                Rewrite { sql: out, changed }
            }
        },
    }
}

/// The catalog query that has to be answered before `sql` can be rewritten,
/// if `sql` is a candidate at all.
pub fn catalog_lookup(sql: &str) -> (r: Option<String>)
    ensures
        match r {
            Some(q) => table_name(sql@) matches Some(t) && q@ == catalog_query(t),
            None => table_name(sql@) is None,
        },
{
    match extract_table_name(sql) {
        Some(name) => Some(metadata_query(name.as_str())),
        None => None,
    }
}

} // verus!
