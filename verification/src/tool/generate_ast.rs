//! Writes the declarations of the syntax tree's types from a short
//! description of them.
//!
//! A type is described by its name, an equals sign, and its fields, each a
//! name, a colon and a type, with a comma and a space between one field and
//! the next:
//!
//! ```text
//! Unary    = operator: Token, right: Box<Expr>
//! ```
//!
//! The text of the declarations is made here; writing it to a file is left
//! to the caller.

use vstd::prelude::*;
use vstd::string::StringExecFns;
use crate::text::{chars_of, push_chars};

verus! {

/// White space: the characters to which Unicode gives the property
/// `White_Space`.
pub open spec fn is_space(c: char) -> bool {
    ||| '\u{9}' <= c <= '\u{d}'
    ||| c == ' '
    ||| c == '\u{85}'
    ||| c == '\u{a0}'
    ||| c == '\u{1680}'
    ||| '\u{2000}' <= c <= '\u{200a}'
    ||| c == '\u{2028}'
    ||| c == '\u{2029}'
    ||| c == '\u{202f}'
    ||| c == '\u{205f}'
    ||| c == '\u{3000}'
}

/// How many characters of white space a text begins with.
pub open spec fn leading(s: Seq<char>) -> nat
    decreases s.len(),
{
    if s.len() > 0 && is_space(s[0]) {
        1 + leading(s.drop_first())
    } else {
        0
    }
}

/// How many characters of white space a text ends with.
pub open spec fn trailing(s: Seq<char>) -> nat
    decreases s.len(),
{
    if s.len() > 0 && is_space(s.last()) {
        1 + trailing(s.drop_last())
    } else {
        0
    }
}

/// A text without the white space at its two ends.
pub open spec fn trimmed(s: Seq<char>) -> Seq<char> {
    let rest = s.skip(leading(s) as int);
    rest.take(rest.len() - trailing(rest))
}

/// The index of the first `c` in a text, or the length of the text if there
/// is none.
pub open spec fn first_index(s: Seq<char>, c: char) -> nat
    decreases s.len(),
{
    if s.len() == 0 || s[0] == c {
        0
    } else {
        1 + first_index(s.drop_first(), c)
    }
}

/// Whether `c` occurs in a text.
pub open spec fn occurs(s: Seq<char>, c: char) -> bool {
    first_index(s, c) < s.len()
}

/// What stands before the first `c` of a text.
pub open spec fn before(s: Seq<char>, c: char) -> Seq<char> {
    s.take(first_index(s, c) as int)
}

/// What stands between the first `c` of a text and the second, or the end of
/// the text if there is no second.
pub open spec fn after(s: Seq<char>, c: char) -> Seq<char> {
    before(s.skip(first_index(s, c) as int + 1), c)
}

/// The index of the first comma that a space follows, or the length of the
/// text if there is none.
pub open spec fn first_break(s: Seq<char>) -> nat
    decreases s.len(),
{
    if s.len() < 2 {
        s.len()
    } else if s[0] == ',' && s[1] == ' ' {
        0
    } else {
        1 + first_break(s.drop_first())
    }
}

/// The pieces of a text between one comma-and-space and the next.
pub open spec fn pieces(s: Seq<char>) -> Seq<Seq<char>>
    decreases s.len(),
{
    let at = first_break(s);
    if at + 2 <= s.len() {
        seq![s.take(at as int)] + pieces(s.skip(at as int + 2))
    } else {
        seq![s]
    }
}

/// The declaration of one field, described as a name, a colon and a type.
pub open spec fn field_line(field: Seq<char>) -> Seq<char> {
    "    pub "@ + trimmed(before(field, ':')) + ": "@ + trimmed(after(field, ':')) + ",\n"@
}

/// The declarations of some fields, one after another.
pub open spec fn field_lines(fields: Seq<Seq<char>>) -> Seq<char>
    decreases fields.len(),
{
    if fields.len() == 0 {
        Seq::empty()
    } else {
        field_lines(fields.drop_last()) + field_line(fields.last())
    }
}

/// Whether each of some fields has its colon.
pub open spec fn fields_described(fields: Seq<Seq<char>>) -> bool {
    forall|i: int| 0 <= i < fields.len() ==> occurs(#[trigger] fields[i], ':')
}

/// The name in the description of a type.
pub open spec fn class_name(described: Seq<char>) -> Seq<char> {
    trimmed(before(described, '='))
}

/// The fields in the description of a type.
pub open spec fn field_list(described: Seq<char>) -> Seq<char> {
    trimmed(after(described, '='))
}

/// Whether the description of a type has its equals sign and each of its
/// fields has its colon.
pub open spec fn type_described(described: Seq<char>) -> bool {
    occurs(described, '=') && fields_described(pieces(field_list(described)))
}

/// Whether each of some descriptions is one of a type.
pub open spec fn types_described(types: Seq<Seq<char>>) -> bool {
    forall|i: int| 0 <= i < types.len() ==> type_described(#[trigger] types[i])
}

/// The declaration of a struct with the given name and fields.
pub open spec fn type_text(class_name: Seq<char>, field_list: Seq<char>) -> Seq<char> {
    "#[derive(Debug)]\n"@ + "pub struct "@ + class_name + " {\n"@ + field_lines(pieces(field_list))
        + "}\n\n"@
}

/// The declarations of the structs that some descriptions describe, one
/// after another.
pub open spec fn types_text(types: Seq<Seq<char>>) -> Seq<char>
    decreases types.len(),
{
    if types.len() == 0 {
        Seq::empty()
    } else {
        types_text(types.drop_last()) + type_text(
            class_name(types.last()),
            field_list(types.last()),
        )
    }
}

/// The variants of the enum over the described types, one for each.
pub open spec fn variant_lines(types: Seq<Seq<char>>) -> Seq<char>
    decreases types.len(),
{
    if types.len() == 0 {
        Seq::empty()
    } else {
        variant_lines(types.drop_last()) + "    "@ + class_name(types.last()) + "("@ + class_name(
            types.last(),
        ) + "),\n"@
    }
}

/// The whole text for the described types: an import, a struct for each
/// type, an enum named `base_name` over them, and the trait of their
/// visitors.
pub open spec fn ast_text(base_name: Seq<char>, types: Seq<Seq<char>>) -> Seq<char> {
    "use crate::token::{LiteralType, Token};\n"@ + "\n"@ + types_text(types)
        + "#[derive(Debug)]\n"@ + "pub enum "@ + base_name + " {\n"@ + variant_lines(types)
        + "}\n\n"@ + "pub trait Visitor<T> {\n"@ + "    fn visit(expr: "@ + base_name + ") -> T;\n"@
        + "}\n"@
}

/// The views of some texts, in order.
pub open spec fn text_views(types: Seq<&str>) -> Seq<Seq<char>> {
    Seq::new(types.len(), |i: int| types[i]@)
}

/// The name of the enum that [`generate_ast`] declares.
pub const BASE_NAME: &'static str = "Expr";

/// The descriptions of the types that [`generate_ast`] declares.
pub open spec fn descriptions() -> Seq<Seq<char>> {
    seq![
        "Binary   = left: Box<Expr>, operator: Token, right: Box<Expr>"@,
        "Grouping = expression: Box<Expr>"@,
        "Literal  = value: LiteralType"@,
        "Unary    = operator: Token, right: Box<Expr>"@,
    ]
}

/// The declarations of the types of expression, as the text of a source
/// file; nothing if a description is not well formed.
pub fn generate_ast() -> (r: Option<String>)
    ensures
        types_described(descriptions()) ==> r is Some && r->Some_0@ == ast_text(
            BASE_NAME@,
            descriptions(),
        ),
        !types_described(descriptions()) ==> r is None,
{
    let types = vec![
        "Binary   = left: Box<Expr>, operator: Token, right: Box<Expr>",
        "Grouping = expression: Box<Expr>",
        "Literal  = value: LiteralType",
        "Unary    = operator: Token, right: Box<Expr>",
    ];
    assert(text_views(types@) =~= descriptions());
    define_ast(BASE_NAME, &types)
}

/// The text for the described types, with an enum named `base_name` over
/// them; nothing if a description lacks its equals sign or a colon.
pub fn define_ast(base_name: &str, types: &Vec<&str>) -> (r: Option<String>)
    ensures
        types_described(text_views(types@)) ==> r is Some && r->Some_0@ == ast_text(
            base_name@,
            text_views(types@),
        ),
        !types_described(text_views(types@)) ==> r is None,
{
    let ghost all = text_views(types@);
    let mut text = String::from_str("use crate::token::{LiteralType, Token};\n");
    text.append("\n");
    let mut variants = String::new();
    let mut i: usize = 0;
    while i < types.len()
        invariant
            i <= types.len(),
            all == text_views(types@),
            types_described(all.take(i as int)),
            text@ == "use crate::token::{LiteralType, Token};\n"@ + "\n"@ + types_text(
                all.take(i as int),
            ),
            variants@ == variant_lines(all.take(i as int)),
        decreases types.len() - i,
    {
        let described = chars_of(types[i]);
        proof {
            assert(all.take(i as int + 1).drop_last() =~= all.take(i as int));
            assert(all.take(i as int + 1).last() == described@);
        }
        let (class_name, fields) = match two_parts(&described, '=') {
            Some(parts) => parts,
            None => {
                proof {
                    assert(!type_described(all[i as int]));
                }
                return None;
            },
        };
        let declared = match define_type(&class_name, &fields) {
            Some(declared) => declared,
            None => {
                proof {
                    assert(!type_described(all[i as int]));
                }
                return None;
            },
        };
        text.append(declared.as_str());
        variants.append("    ");
        push_chars(&mut variants, &class_name, 0, class_name.len());
        variants.append("(");
        push_chars(&mut variants, &class_name, 0, class_name.len());
        variants.append("),\n");
        proof {
            assert(class_name@.subrange(0, class_name.len() as int) =~= class_name@);
            assert(text@ =~= "use crate::token::{LiteralType, Token};\n"@ + "\n"@ + types_text(
                all.take(i as int + 1),
            ));
            assert(variants@ =~= variant_lines(all.take(i as int + 1)));
            assert forall|k: int| 0 <= k < i + 1 implies type_described(
                #[trigger] all.take(i as int + 1)[k],
            ) by {
                if k < i {
                    assert(all.take(i as int)[k] == all.take(i as int + 1)[k]);
                }
            }
        }
        i += 1;
    }
    proof {
        assert(all.take(types.len() as int) =~= all);
    }
    text.append("#[derive(Debug)]\n");
    text.append("pub enum ");
    text.append(base_name);
    text.append(" {\n");
    text.append(variants.as_str());
    text.append("}\n\n");
    text.append("pub trait Visitor<T> {\n");
    text.append("    fn visit(expr: ");
    text.append(base_name);
    text.append(") -> T;\n");
    text.append("}\n");
    Some(text)
}

/// The declaration of a struct with the given name and fields; nothing if a
/// field lacks its colon.
pub fn define_type(class_name: &Vec<char>, field_list: &Vec<char>) -> (r: Option<String>)
    ensures
        fields_described(pieces(field_list@)) ==> r is Some && r->Some_0@ == type_text(
            class_name@,
            field_list@,
        ),
        !fields_described(pieces(field_list@)) ==> r is None,
{
    let ghost all = pieces(field_list@);
    let mut text = String::from_str("#[derive(Debug)]\n");
    text.append("pub struct ");
    push_chars(&mut text, class_name, 0, class_name.len());
    text.append(" {\n");
    let ghost head = text@;
    let ghost mut done: Seq<Seq<char>> = Seq::empty();
    let mut from: usize = 0;
    let mut more = true;
    proof {
        assert(class_name@.subrange(0, class_name.len() as int) =~= class_name@);
        assert(field_list@.skip(0) =~= field_list@);
        assert(done + pieces(field_list@.skip(0)) =~= all);
        assert(head + field_lines(done) =~= head);
    }
    while more
        invariant
            from <= field_list.len(),
            head == "#[derive(Debug)]\n"@ + "pub struct "@ + class_name@ + " {\n"@,
            all == pieces(field_list@),
            more ==> all == done + pieces(field_list@.skip(from as int)),
            !more ==> all == done,
            fields_described(done),
            text@ == head + field_lines(done),
        decreases field_list.len() - from + if more {
            1int
        } else {
            0int
        },
    {
        let ghost rest = field_list@.skip(from as int);
        let at = find_break(field_list, from);
        let field = cut(field_list, from, at);
        proof {
            lemma_break_within(rest);
            assert(field@ =~= rest.take(first_break(rest) as int));
            if first_break(rest) + 2 > rest.len() {
                assert(rest.take(first_break(rest) as int) =~= rest);
            }
            assert(pieces(rest)[0] == field@);
            assert(all[done.len() as int] == field@);
        }
        let (name, kind) = match two_parts(&field, ':') {
            Some(parts) => parts,
            None => {
                return None;
            },
        };
        text.append("    pub ");
        push_chars(&mut text, &name, 0, name.len());
        text.append(": ");
        push_chars(&mut text, &kind, 0, kind.len());
        text.append(",\n");
        proof {
            assert(name@.subrange(0, name.len() as int) =~= name@);
            assert(kind@.subrange(0, kind.len() as int) =~= kind@);
            let longer = done.push(field@);
            assert(longer.drop_last() =~= done);
            assert(text@ =~= head + field_lines(longer));
            if at + 2 <= field_list.len() {
                assert(rest.skip(first_break(rest) as int + 2) =~= field_list@.skip(at + 2));
                assert(all =~= longer + pieces(field_list@.skip(at + 2)));
            } else {
                assert(all =~= longer);
            }
            done = longer;
        }
        if field_list.len() - at >= 2 {
            from = at + 2;
        } else {
            more = false;
        }
    }
    text.append("}\n\n");
    Some(text)
}

/// The first break of a text lies within it, and if it is not at the end,
/// two characters stand there.
pub proof fn lemma_break_within(s: Seq<char>)
    ensures
        first_break(s) <= s.len(),
        first_break(s) < s.len() ==> first_break(s) + 2 <= s.len(),
    decreases s.len(),
{
    if s.len() >= 2 && !(s[0] == ',' && s[1] == ' ') {
        lemma_break_within(s.drop_first());
    }
}

/// Whether `c` is white space.
pub fn space(c: char) -> (r: bool)
    ensures
        r == is_space(c),
{
    ('\u{9}' <= c && c <= '\u{d}') || c == ' ' || c == '\u{85}' || c == '\u{a0}' || c == '\u{1680}'
        || ('\u{2000}' <= c && c <= '\u{200a}') || c == '\u{2028}' || c == '\u{2029}' || c
        == '\u{202f}' || c == '\u{205f}' || c == '\u{3000}'
}

/// The characters of `v` from index `from` up to `to`.
pub fn cut(v: &Vec<char>, from: usize, to: usize) -> (r: Vec<char>)
    requires
        from <= to <= v.len(),
    ensures
        r@ == v@.subrange(from as int, to as int),
{
    let mut r: Vec<char> = Vec::new();
    let mut i: usize = from;
    while i < to
        invariant
            from <= i <= to <= v.len(),
            r@ == v@.subrange(from as int, i as int),
        decreases to - i,
    {
        r.push(v[i]);
        i += 1;
        assert(r@ =~= v@.subrange(from as int, i as int));
    }
    r
}

/// The index of the first `c` at or after index `from`, or the length of
/// `v` if there is none.
pub fn find(v: &Vec<char>, from: usize, c: char) -> (at: usize)
    requires
        from <= v.len(),
    ensures
        from <= at <= v.len(),
        at == from + first_index(v@.skip(from as int), c),
{
    let mut i: usize = from;
    while i < v.len() && v[i] != c
        invariant
            from <= i <= v.len(),
            first_index(v@.skip(from as int), c) == (i - from) + first_index(
                v@.skip(i as int),
                c,
            ),
        decreases v.len() - i,
    {
        assert(v@.skip(i as int).drop_first() =~= v@.skip(i + 1));
        i += 1;
    }
    i
}

/// The index of the first comma at or after index `from` that a space
/// follows, or the length of `v` if there is none.
pub fn find_break(v: &Vec<char>, from: usize) -> (at: usize)
    requires
        from <= v.len(),
    ensures
        from <= at <= v.len(),
        at == from + first_break(v@.skip(from as int)),
{
    let mut i: usize = from;
    while i < v.len() && !(v.len() - i >= 2 && v[i] == ',' && v[i + 1] == ' ')
        invariant
            from <= i <= v.len(),
            first_break(v@.skip(from as int)) == (i - from) + first_break(v@.skip(i as int)),
        decreases v.len() - i,
    {
        proof {
            let rest = v@.skip(i as int);
            assert(rest.drop_first() =~= v@.skip(i + 1));
            if rest.len() < 2 {
                assert(first_break(rest.drop_first()) == 0);
            }
        }
        i += 1;
    }
    i
}

/// `v` without the white space at its two ends.
pub fn trim(v: &Vec<char>) -> (r: Vec<char>)
    ensures
        r@ == trimmed(v@),
{
    let mut from: usize = 0;
    proof {
        assert(v@.skip(0) =~= v@);
    }
    while from < v.len() && space(v[from])
        invariant
            from <= v.len(),
            leading(v@) == from + leading(v@.skip(from as int)),
        decreases v.len() - from,
    {
        assert(v@.skip(from as int).drop_first() =~= v@.skip(from + 1));
        from += 1;
    }
    let ghost rest = v@.skip(from as int);
    let mut to: usize = v.len();
    proof {
        assert(rest.take(rest.len() as int) =~= rest);
    }
    while to > from && space(v[to - 1])
        invariant
            from <= to <= v.len(),
            rest == v@.skip(from as int),
            trailing(rest) == (v.len() - to) + trailing(rest.take(to - from)),
        decreases to,
    {
        assert(rest.take(to - from).drop_last() =~= rest.take(to - from - 1));
        to -= 1;
    }
    let r = cut(v, from, to);
    assert(r@ =~= trimmed(v@));
    r
}

/// What stands before the first `c` of `v` and what stands between it and
/// the second, each without the white space at its ends; nothing if there
/// is no `c`.
pub fn two_parts(v: &Vec<char>, c: char) -> (r: Option<(Vec<char>, Vec<char>)>)
    ensures
        occurs(v@, c) ==> r is Some && r->Some_0.0@ == trimmed(before(v@, c)) && r->Some_0.1@
            == trimmed(after(v@, c)),
        !occurs(v@, c) ==> r is None,
{
    let at = find(v, 0, c);
    proof {
        assert(v@.skip(0) =~= v@);
    }
    if at >= v.len() {
        return None;
    }
    let end = find(v, at + 1, c);
    let first = cut(v, 0, at);
    let second = cut(v, at + 1, end);
    proof {
        assert(first@ =~= before(v@, c));
        assert(second@ =~= after(v@, c));
    }
    Some((trim(&first), trim(&second)))
}

} // verus!
