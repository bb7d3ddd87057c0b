//! Field-layout reports: wrapping of long C++ type names for a table column.
use vstd::prelude::*;

use crate::text::{
    blank, chars_of, dec, decimal, eq_chars, extend, has_prefix, is_blank, last_scope, last_scope_of,
    push_str, slice_of, string_of, trim_end, trim_end_of, trim_start, trim_start_of,
};

verus! {

/// What a field-layout search asks for.
pub struct FieldLayoutQuery {
    pub class_name: String,
}

/// The number of bytes of `c` in UTF-8.
pub open spec fn byte_width(c: char) -> nat {
    let u = c as u32;
    if u < 0x80 {
        1
    } else if u < 0x800 {
        2
    } else if u < 0x10000 {
        3
    } else {
        4
    }
}

/// The length of `s` in UTF-8 bytes (as `str::len`).
pub open spec fn byte_len(s: Seq<char>) -> nat
    decreases s.len(),
{
    if s.len() == 0 {
        0
    } else {
        byte_len(s.drop_last()) + byte_width(s.last())
    }
}

/// Two spaces per nesting level.
pub open spec fn indent(d: nat) -> Seq<char> {
    Seq::new(2 * d, |i: int| ' ')
}

/// The index of the last space of `s`, or -1.
pub open spec fn last_space(s: Seq<char>) -> int
    decreases s.len(),
{
    if s.len() == 0 {
        -1
    } else if s.last() == ' ' {
        s.len() - 1
    } else {
        last_space(s.drop_last())
    }
}

/// The state of the wrapper: the text done, the current line, the depth of
/// `<` nesting.
pub type WrapState = (Seq<char>, Seq<char>, nat);

/// The effect of the character at `i` (a `, ` counting as one).
pub open spec fn wrap_char(cs: Seq<char>, max: nat, i: int, st: WrapState) -> WrapState {
    let (r, cur, d) = st;
    let c = cs[i];
    if c == '<' {
        let cur1 = cur.push('<');
        if byte_len(cur1) > max && d + 1 == 1 {
            (r + cur1 + seq!['\n'], indent(d + 1), d + 1)
        } else {
            (r, cur1, d + 1)
        }
    } else if c == '>' {
        (r, cur.push('>'), if d > 0 {
            (d - 1) as nat
        } else {
            0
        })
    } else if c == ',' {
        let cur1 = cur.push(',');
        if d > 0 && byte_len(cur1) > max / 2 {
            (r + trim_end(cur1) + seq!['\n'], indent(d), d)
        } else {
            (r, cur1.push(' '), d)
        }
    } else {
        (r, cur.push(c), d)
    }
}

/// Where a nested line has grown past `max` bytes: a break at its last
/// space, where that leaves more than half of `max` before it.
pub open spec fn rebalance(max: nat, st: WrapState) -> WrapState {
    let (r, cur, d) = st;
    let ls = last_space(cur);
    if byte_len(cur) > max && !is_blank(cur) && d > 0 && ls >= 0 && byte_len(cur.take(ls)) > max
        / 2 {
        (r + trim_end(cur.take(ls)) + seq!['\n'], indent(d) + trim_start(cur.skip(ls)), d)
    } else {
        st
    }
}

/// Whether the character at `i` is a comma followed by a space.
pub open spec fn comma_space(cs: Seq<char>, i: int) -> bool {
    cs[i] == ',' && i + 1 < cs.len() && cs[i + 1] == ' '
}

/// Wraps `cs` from index `i` on.
pub open spec fn wrap_from(cs: Seq<char>, max: nat, i: int, st: WrapState) -> Seq<char>
    decreases cs.len() - i,
{
    if i < 0 || i >= cs.len() {
        st.0 + st.1
    } else {
        let next = if comma_space(cs, i) {
            i + 2
        } else {
            i + 1
        };
        wrap_from(cs, max, next, rebalance(max, wrap_char(cs, max, i, st)))
    }
}

/// A C++ type name wrapped for a column of `max` bytes: unchanged where it
/// fits; else broken after top-level `<`, after commas inside template
/// arguments, and at spaces, continuation lines indented by nesting depth.
pub open spec fn wrapped_type(s: Seq<char>, max: nat) -> Seq<char> {
    if byte_len(s) <= max {
        s
    } else {
        wrap_from(s, max, 0, (Seq::empty(), Seq::empty(), 0))
    }
}

fn byte_width_exec(c: char) -> (r: u128)
    ensures
        r == byte_width(c),
{
    let u = c as u32;
    if u < 0x80 {
        1
    } else if u < 0x800 {
        2
    } else if u < 0x10000 {
        3
    } else {
        4
    }
}

/// The UTF-8 length of `s`.
fn byte_len_exec(s: &Vec<char>) -> (r: u128)
    ensures
        r == byte_len(s@),
{
    let mut total: u128 = 0;
    let mut i: usize = 0;
    while i < s.len()
        invariant
            i <= s@.len(),
            total == byte_len(s@.take(i as int)),
            total <= 4 * i,
        decreases s.len() - i,
    {
        assert(s@.take(i + 1).drop_last() =~= s@.take(i as int));
        total = total + byte_width_exec(s[i]);
        i = i + 1;
    }
    assert(s@.take(s@.len() as int) =~= s@);
    total
}

fn indent_exec(d: usize) -> (r: Vec<char>)
    ensures
        r@ == indent(d as nat),
{
    let mut out: Vec<char> = Vec::new();
    let mut k: usize = 0;
    while k < d
        invariant
            k <= d,
            out@ == indent(k as nat),
        decreases d - k,
    {
        out.push(' ');
        out.push(' ');
        assert(out@ =~= indent((k + 1) as nat));
        k = k + 1;
    }
    out
}

fn last_space_exec(s: &Vec<char>) -> (r: Option<usize>)
    ensures
        match r {
            Some(k) => k < s@.len() && last_space(s@) == k,
            None => last_space(s@) == -1,
        },
{
    let mut i: usize = s.len();
    assert(s@.take(s@.len() as int) =~= s@);
    while i > 0
        invariant
            i <= s@.len(),
            last_space(s@) == last_space(s@.take(i as int)),
        decreases i,
    {
        assert(s@.take(i as int).last() == s@[i - 1]);
        if s[i - 1] == ' ' {
            return Some(i - 1);
        }
        assert(s@.take(i as int).drop_last() =~= s@.take(i - 1));
        i = i - 1;
    }
    None
}

fn rebalance_exec(max: usize, r: &mut Vec<char>, cur: &mut Vec<char>, d: usize)
    ensures
        (final(r)@, final(cur)@, d as nat) == rebalance(max as nat, (old(r)@, old(cur)@, d as nat)),
{
    if byte_len_exec(cur) > max as u128 && !blank(cur) && d > 0 {
        match last_space_exec(cur) {
            Some(ls) => {
                let left = slice_of(cur, 0, ls);
                if byte_len_exec(&left) > (max / 2) as u128 {
                    extend(r, &trim_end_of(&left));
                    r.push('\n');
                    let right = trim_start_of(&slice_of(cur, ls, cur.len()));
                    let mut next = indent_exec(d);
                    extend(&mut next, &right);
                    assert(cur@.skip(ls as int) =~= cur@.subrange(ls as int, cur@.len() as int));
                    *cur = next;
                }
            },
            None => {},
        }
    }
}

/// Wraps a C++ type name to fit a table column of `max_width` bytes.
pub fn wrap_cpp_type(type_str: &str, max_width: usize) -> (r: String)
    ensures
        r@ == wrapped_type(type_str@, max_width as nat),
{
    let cs = chars_of(type_str);
    if byte_len_exec(&cs) <= max_width as u128 {
        return string_of(&cs);
    }
    let mut result: Vec<char> = Vec::new();
    let mut current: Vec<char> = Vec::new();
    let mut depth: usize = 0;
    let mut i: usize = 0;
    let ghost max = max_width as nat;
    while i < cs.len()
        invariant
            i <= cs@.len(),
            depth <= i,
            cs@ == type_str@,
            max == max_width as nat,
            wrap_from(cs@, max, i as int, (result@, current@, depth as nat)) == wrap_from(
                cs@,
                max,
                0,
                (Seq::empty(), Seq::empty(), 0),
            ),
        decreases cs.len() - i,
    {
        let c = cs[i];
        let ghost st = (result@, current@, depth as nat);
        let mut next = i + 1;
        if c == '<' {
            current.push('<');
            depth = depth + 1;
            if byte_len_exec(&current) > max_width as u128 && depth == 1 {
                extend(&mut result, &current);
                result.push('\n');
                current = indent_exec(depth);
            }
        } else if c == '>' {
            current.push('>');
            depth = if depth > 0 {
                depth - 1
            } else {
                0
            };
        } else if c == ',' {
            current.push(',');
            if i + 1 < cs.len() && cs[i + 1] == ' ' {
                next = i + 2;
            }
            if depth > 0 && byte_len_exec(&current) > (max_width / 2) as u128 {
                extend(&mut result, &trim_end_of(&current));
                result.push('\n');
                current = indent_exec(depth);
            } else {
                current.push(' ');
            }
        } else {
            current.push(c);
        }
        assert((result@, current@, depth as nat) == wrap_char(cs@, max, i as int, st));
        rebalance_exec(max_width, &mut result, &mut current, depth);
        i = next;
    }
    extend(&mut result, &current);
    string_of(&result)
}

/// A base class in a layout.
#[derive(Clone, Debug)]
pub struct BaseClassEntry {
    pub offset: u64,
    pub size: u64,
    /// Its symbol, `T_`-prefixed for a type.
    pub sym: String,
}

/// A field in a layout.
#[derive(Clone, Debug)]
pub struct FieldEntry {
    pub offset: u64,
    pub size: u64,
    pub field_type: String,
    /// Its qualified name, if known.
    pub pretty: Option<String>,
}

/// The layout of a class: its size and alignment where known, its bases and
/// its fields.
#[derive(Clone, Debug)]
pub struct ClassLayout {
    pub size: Option<u64>,
    pub alignment: Option<u64>,
    pub supers: Vec<BaseClassEntry>,
    pub fields: Vec<FieldEntry>,
}

/// A field-layout result: for each table, its symbols with their layout
/// (`None` where the table holds the symbol without one).
pub struct FieldLayoutData {
    pub tables: Vec<Vec<(String, Option<ClassLayout>)>>,
}

/// What tabled renders for a table with the header row `header` and the
/// rows `rows`, in the rounded style, the header row coloured green (else
/// cyan).
pub uninterp spec fn table_text(
    header: Seq<Seq<char>>,
    rows: Seq<Seq<Seq<char>>>,
    green: bool,
) -> Seq<char>;

pub open spec fn cell_views(v: Seq<String>) -> Seq<Seq<char>> {
    v.map_values(|c: String| c@)
}

pub open spec fn row_views(v: Seq<Vec<String>>) -> Seq<Seq<Seq<char>>> {
    v.map_values(|r: Vec<String>| cell_views(r@))
}

/// Relies on tabled (`Builder::push_record`, `Builder::build`,
/// `Table::with`, `Style::rounded`, `Modify`, `Rows::first`, `Color`): the
/// rendered table, which depends on the cells alone.
#[verifier::external_body]
fn render_table(header: &Vec<String>, rows: &Vec<Vec<String>>, green: bool) -> (r: String)
    ensures
        r@ == table_text(cell_views(header@), row_views(rows@), green),
{
    let mut builder = tabled::builder::Builder::default();
    builder.push_record(header.iter().cloned());
    for row in rows {
        builder.push_record(row.iter().cloned());
    }
    let color = if green { tabled::settings::Color::FG_GREEN } else { tabled::settings::Color::FG_CYAN };
    let mut table = builder.build();
    table.with(tabled::settings::Style::rounded());
    table.with(tabled::settings::Modify::new(tabled::settings::object::Rows::first()).with(color));
    table.to_string()
}

/// The width of the type column for a terminal `width` columns wide.
pub open spec fn type_column_width(width: usize) -> nat {
    let w = if width >= 40 {
        width - 40
    } else {
        0
    };
    if w < 30 {
        30
    } else if w > 60 {
        60
    } else {
        w as nat
    }
}

/// The type that a base-class symbol names.
pub open spec fn base_type(sym: Seq<char>) -> Seq<char> {
    if has_prefix(sym, "T_"@) {
        sym.subrange(2, sym.len() as int)
    } else {
        sym
    }
}

pub open spec fn base_row(b: BaseClassEntry, w: nat) -> Seq<Seq<char>> {
    seq![dec(b.offset as nat), dec(b.size as nat), wrapped_type(base_type(b.sym@), w)]
}

/// A field's name: the last piece of its qualified name.
pub open spec fn field_name(pretty: Option<String>) -> Seq<char> {
    match pretty {
        Some(p) => last_scope(p@),
        None => "unnamed"@,
    }
}

pub open spec fn field_row(f: FieldEntry, w: nat) -> Seq<Seq<char>> {
    seq![dec(f.offset as nat), dec(f.size as nat), wrapped_type(f.field_type@, w), field_name(f.pretty)]
}

pub open spec fn base_header() -> Seq<Seq<char>> {
    seq!["offset"@, "size"@, "type"@]
}

pub open spec fn field_header() -> Seq<Seq<char>> {
    seq!["offset"@, "size"@, "type"@, "name"@]
}

/// The report of a class's layout.
pub open spec fn layout_text(m: ClassLayout, w: nat) -> Seq<char> {
    (match m.size {
        Some(sz) => "Size: "@ + dec(sz as nat) + " bytes"@,
        None => Seq::empty(),
    }) + (match m.alignment {
        Some(a) => ", Alignment: "@ + dec(a as nat) + " bytes\n\n"@,
        None => "\n\n"@,
    }) + (if m.supers@.len() > 0 {
        "Base Classes:\n"@ + table_text(
            base_header(),
            m.supers@.map_values(|b: BaseClassEntry| base_row(b, w)),
            true,
        ) + "\n\n"@
    } else {
        Seq::empty()
    }) + (if m.fields@.len() > 0 {
        "Fields:\n"@ + table_text(
            field_header(),
            m.fields@.map_values(|f: FieldEntry| field_row(f, w)),
            false,
        ) + "\n"@
    } else {
        Seq::empty()
    })
}

/// The entry of `key` in the first table that holds it.
pub open spec fn find_layout(
    tables: Seq<Vec<(String, Option<ClassLayout>)>>,
    key: Seq<char>,
    t: int,
) -> Option<Option<ClassLayout>>
    decreases tables.len() - t,
{
    if t < 0 || t >= tables.len() {
        None
    } else {
        match find_in_table(tables[t]@, key, 0) {
            Some(l) => Some(l),
            None => find_layout(tables, key, t + 1),
        }
    }
}

pub open spec fn find_in_table(entries: Seq<(String, Option<ClassLayout>)>, key: Seq<char>, i: int) -> Option<Option<ClassLayout>>
    decreases entries.len() - i,
{
    if i < 0 || i >= entries.len() {
        None
    } else if entries[i].0@ == key {
        Some(entries[i].1)
    } else {
        find_in_table(entries, key, i + 1)
    }
}

/// The field-layout report of `class_name`.
pub open spec fn field_layout_text(class_name: Seq<char>, data: FieldLayoutData, width: usize) -> Seq<char> {
    "Field Layout: "@ + class_name + "\n\n"@ + match find_layout(data.tables@, "T_"@ + class_name, 0) {
        None => "No field layout information found.\nThis feature only works with C++ classes and structs.\n"@,
        Some(None) => Seq::empty(),
        Some(Some(m)) => layout_text(m, type_column_width(width)),
    }
}

fn find_layout_exec<'a>(data: &'a FieldLayoutData, key: &Vec<char>) -> (r: Option<&'a Option<ClassLayout>>)
    ensures
        match r {
            Some(l) => find_layout(data.tables@, key@, 0) == Some(*l),
            None => find_layout(data.tables@, key@, 0) is None,
        },
{
    let mut t: usize = 0;
    while t < data.tables.len()
        invariant
            t <= data.tables@.len(),
            find_layout(data.tables@, key@, t as int) == find_layout(data.tables@, key@, 0),
        decreases data.tables.len() - t,
    {
        let entries = &data.tables[t];
        let mut i: usize = 0;
        while i < entries.len()
            invariant
                i <= entries@.len(),
                t < data.tables@.len(),
                *entries == data.tables@[t as int],
                find_layout(data.tables@, key@, t as int) == find_layout(data.tables@, key@, 0),
                find_in_table(entries@, key@, i as int) == find_in_table(entries@, key@, 0),
            decreases entries.len() - i,
        {
            if eq_chars(&chars_of(entries[i].0.as_str()), key) {
                return Some(&entries[i].1);
            }
            i = i + 1;
        }
        t = t + 1;
    }
    None
}

fn cells(a: &Vec<char>, b: &Vec<char>, c: &Vec<char>) -> (r: Vec<String>)
    ensures
        cell_views(r@) == seq![a@, b@, c@],
{
    let r = vec![string_of(a), string_of(b), string_of(c)];
    assert(cell_views(r@) =~= seq![a@, b@, c@]);
    r
}

/// The cells of the base-class table: offset, size, wrapped type.
pub fn base_rows(supers: &Vec<BaseClassEntry>, w: usize) -> (r: Vec<Vec<String>>)
    ensures
        row_views(r@) == supers@.map_values(|b: BaseClassEntry| base_row(b, w as nat)),
{
    let ghost want = supers@.map_values(|b: BaseClassEntry| base_row(b, w as nat));
    let mut out: Vec<Vec<String>> = Vec::new();
    let mut i: usize = 0;
    proof {
        reveal_strlit("T_");
    }
    while i < supers.len()
        invariant
            i <= supers@.len(),
            want == supers@.map_values(|b: BaseClassEntry| base_row(b, w as nat)),
            row_views(out@) == want.take(i as int),
        decreases supers.len() - i,
    {
        let b = &supers[i];
        let sym = chars_of(b.sym.as_str());
        let ty = if begins_t(&sym) {
            slice_of(&sym, 2, sym.len())
        } else {
            sym
        };
        let wrapped = chars_of(wrap_cpp_type(string_of(&ty).as_str(), w).as_str());
        let row = cells(&decimal(b.offset as u128), &decimal(b.size as u128), &wrapped);
        let ghost before = row_views(out@);
        out.push(row);
        assert(row_views(out@) =~= before.push(base_row(*b, w as nat)));
        assert(want.take(i + 1) =~= want.take(i as int).push(want[i as int]));
        i = i + 1;
    }
    assert(want.take(supers@.len() as int) =~= want);
    out
}

fn begins_t(s: &Vec<char>) -> (r: bool)
    ensures
        r == has_prefix(s@, "T_"@),
        r ==> s@.len() >= 2,
{
    proof {
        reveal_strlit("T_");
    }
    crate::utils::begins(s, "T_")
}

/// The cells of the field table: offset, size, wrapped type, name.
pub fn field_rows(fields: &Vec<FieldEntry>, w: usize) -> (r: Vec<Vec<String>>)
    ensures
        row_views(r@) == fields@.map_values(|f: FieldEntry| field_row(f, w as nat)),
{
    let ghost want = fields@.map_values(|f: FieldEntry| field_row(f, w as nat));
    let mut out: Vec<Vec<String>> = Vec::new();
    let mut i: usize = 0;
    while i < fields.len()
        invariant
            i <= fields@.len(),
            want == fields@.map_values(|f: FieldEntry| field_row(f, w as nat)),
            row_views(out@) == want.take(i as int),
        decreases fields.len() - i,
    {
        let f = &fields[i];
        let name = match &f.pretty {
            Some(p) => last_scope_of(&chars_of(p.as_str())),
            None => chars_of("unnamed"),
        };
        let mut row = cells(
            &decimal(f.offset as u128),
            &decimal(f.size as u128),
            &chars_of(wrap_cpp_type(f.field_type.as_str(), w).as_str()),
        );
        let ghost three = cell_views(row@);
        row.push(string_of(&name));
        assert(cell_views(row@) =~= three.push(name@));
        assert(cell_views(row@) =~= field_row(*f, w as nat));
        let ghost before = row_views(out@);
        out.push(row);
        assert(row_views(out@) =~= before.push(field_row(*f, w as nat)));
        assert(want.take(i + 1) =~= want.take(i as int).push(want[i as int]));
        i = i + 1;
    }
    assert(want.take(fields@.len() as int) =~= want);
    out
}

fn header_of(names: &[&str]) -> (r: Vec<String>)
    ensures
        cell_views(r@) == names@.map_values(|n: &str| n@),
{
    let mut out: Vec<String> = Vec::new();
    let mut i: usize = 0;
    while i < names.len()
        invariant
            i <= names@.len(),
            cell_views(out@) == names@.map_values(|n: &str| n@).take(i as int),
        decreases names.len() - i,
    {
        let ghost before = cell_views(out@);
        let c = string_of(&chars_of(names[i]));
        assert(c@ == names@.map_values(|n: &str| n@)[i as int]);
        out.push(c);
        assert(cell_views(out@) =~= before.push(c@));
        assert(before.push(c@) =~= names@.map_values(|n: &str| n@).take(i + 1));
        i = i + 1;
    }
    assert(names@.map_values(|n: &str| n@).take(names@.len() as int) =~= names@.map_values(|n: &str| n@));
    out
}

fn head_exec(m: &ClassLayout, out: &mut Vec<char>)
    ensures
        final(out)@ == old(out)@ + (match m.size {
            Some(sz) => "Size: "@ + dec(sz as nat) + " bytes"@,
            None => Seq::empty(),
        }) + (match m.alignment {
            Some(a) => ", Alignment: "@ + dec(a as nat) + " bytes\n\n"@,
            None => "\n\n"@,
        }),
{
    let ghost start = out@;
    match m.size {
        Some(sz) => {
            push_str(out, "Size: ");
            extend(out, &decimal(sz as u128));
            push_str(out, " bytes");
        },
        None => {},
    }
    let ghost a1 = out@;
    match m.alignment {
        Some(a) => {
            push_str(out, ", Alignment: ");
            extend(out, &decimal(a as u128));
            push_str(out, " bytes\n\n");
        },
        None => {
            push_str(out, "\n\n");
        },
    }
    assert(a1 =~= start + (match m.size {
        Some(sz) => "Size: "@ + dec(sz as nat) + " bytes"@,
        None => Seq::empty(),
    }));
}

fn bases_exec(m: &ClassLayout, w: usize, out: &mut Vec<char>)
    ensures
        final(out)@ == old(out)@ + if m.supers@.len() > 0 {
            "Base Classes:\n"@ + table_text(
                base_header(),
                m.supers@.map_values(|b: BaseClassEntry| base_row(b, w as nat)),
                true,
            ) + "\n\n"@
        } else {
            Seq::empty()
        },
{
    let ghost start = out@;
    if m.supers.len() > 0 {
        let hdr = header_of(&["offset", "size", "type"]);
        assert(cell_views(hdr@) =~= base_header());
        push_str(out, "Base Classes:\n");
        push_str(out, render_table(&hdr, &base_rows(&m.supers, w), true).as_str());
        push_str(out, "\n\n");
    } else {
        assert(out@ =~= start + Seq::<char>::empty());
    }
}

fn fields_exec(m: &ClassLayout, w: usize, out: &mut Vec<char>)
    ensures
        final(out)@ == old(out)@ + if m.fields@.len() > 0 {
            "Fields:\n"@ + table_text(
                field_header(),
                m.fields@.map_values(|f: FieldEntry| field_row(f, w as nat)),
                false,
            ) + "\n"@
        } else {
            Seq::empty()
        },
{
    let ghost start = out@;
    if m.fields.len() > 0 {
        let hdr = header_of(&["offset", "size", "type", "name"]);
        assert(cell_views(hdr@) =~= field_header());
        push_str(out, "Fields:\n");
        push_str(out, render_table(&hdr, &field_rows(&m.fields, w), false).as_str());
        push_str(out, "\n");
    } else {
        assert(out@ =~= start + Seq::<char>::empty());
    }
}

fn layout_exec(m: &ClassLayout, w: usize, out: &mut Vec<char>)
    ensures
        final(out)@ == old(out)@ + layout_text(*m, w as nat),
{
    let ghost start = out@;
    head_exec(m, out);
    bases_exec(m, w, out);
    fields_exec(m, w, out);
    assert(out@ =~= start + layout_text(*m, w as nat));
}

/// The field-layout report of a class: its size and alignment, then tables
/// of its base classes and fields (type names wrapped to a column that fits
/// a terminal `terminal_width` columns wide), or a note that nothing was
/// found.
pub fn format_field_layout(class_name: &str, data: &FieldLayoutData, terminal_width: usize) -> (r: String)
    ensures
        r@ == field_layout_text(class_name@, *data, terminal_width),
{
    let w0: usize = if terminal_width >= 40 {
        terminal_width - 40
    } else {
        0
    };
    let w: usize = if w0 < 30 {
        30
    } else if w0 > 60 {
        60
    } else {
        w0
    };
    let mut out: Vec<char> = Vec::new();
    push_str(&mut out, "Field Layout: ");
    push_str(&mut out, class_name);
    push_str(&mut out, "\n\n");
    let mut key = chars_of("T_");
    push_str(&mut key, class_name);
    match find_layout_exec(data, &key) {
        None => {
            push_str(&mut out, "No field layout information found.\nThis feature only works with C++ classes and structs.\n");
        },
        Some(found) => match found {
            Some(m) => layout_exec(m, w, &mut out),
            None => {},
        },
    }
    string_of(&out)
}

} // verus!
