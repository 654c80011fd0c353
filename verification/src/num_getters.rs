//! The naming scheme of the numeric accessors: which integer types there
//! are, how wide each is, and how a template identifier is rewritten for one
//! of them in one byte order.

use vstd::prelude::*;
use vstd::string::StrSliceExecFns;

verus! {

/// The byte order that an accessor names in its identifier.
#[derive(Clone, Copy, Debug, PartialEq, Eq, Structural)]
pub enum Endidness {
    Big,
    Little,
    Native,
}

/// The two letters that stand for a byte order in an accessor's name.
pub open spec fn short_name(e: Endidness) -> Seq<char> {
    match e {
        Endidness::Big => "be"@,
        Endidness::Little => "le"@,
        Endidness::Native => "ne"@,
    }
}

impl Endidness {
    /// The two letters that stand for this byte order in an accessor's name.
    pub fn short(&self) -> (s: &'static str)
        ensures
            s@ == short_name(*self),
    {
        match self {
            Self::Big => "be",
            Self::Little => "le",
            Self::Native => "ne",
        }
    }
}

/// An integer type that has accessors: its name and its width in bytes.
#[derive(Clone, Copy, Debug)]
pub struct NumberInfo {
    ident: &'static str,
    width: u8,
}

/// What a template identifier becomes for one integer type.
#[derive(Debug)]
pub enum Substitute {
    /// The identifier stood for the type itself.
    TypeName,
    /// The identifier stood for the width, as a number.
    WidthLiteral,
    /// Any other identifier, with the placeholders inside it filled in.
    Renamed(String),
}

/// `s` with every occurrence of `from` replaced by `to`. Occurrences are
/// found from left to right and do not overlap; an empty `from` occurs
/// nowhere.
pub open spec fn replaced(s: Seq<char>, from: Seq<char>, to: Seq<char>) -> Seq<char>
    decreases s.len(),
{
    if from.len() == 0 || s.len() < from.len() {
        s
    } else if s.take(from.len() as int) == from {
        to + replaced(s.skip(from.len() as int), from, to)
    } else {
        s.take(1) + replaced(s.skip(1), from, to)
    }
}

/// The character that stands for the digit `d`.
pub open spec fn digit(d: u8) -> char {
    if d == 0 {
        '0'
    } else if d == 1 {
        '1'
    } else if d == 2 {
        '2'
    } else if d == 3 {
        '3'
    } else if d == 4 {
        '4'
    } else if d == 5 {
        '5'
    } else if d == 6 {
        '6'
    } else if d == 7 {
        '7'
    } else if d == 8 {
        '8'
    } else {
        '9'
    }
}

/// The decimal digits of `n`, without leading zeros.
pub open spec fn decimal_text(n: u8) -> Seq<char> {
    if n < 10 {
        seq![digit(n)]
    } else if n < 100 {
        seq![digit(n / 10), digit(n % 10)]
    } else {
        seq![digit(n / 100), digit(n / 10 % 10), digit(n % 10)]
    }
}

/// `String::push_str`: appends `tail` to `text`.
#[verifier::external_body]
fn push_str(text: &mut String, tail: &str)
    ensures
        final(text)@ == old(text)@ + tail@,
{
    text.push_str(tail)
}

/// Whether `from` occurs in `s` at the index `at`.
fn occurs_at(s: &str, at: usize, from: &str) -> (found: bool)
    requires
        at + from@.len() <= s@.len(),
        s@.len() <= usize::MAX,
    ensures
        found == (s@.subrange(at as int, at + from@.len()) == from@),
{
    let m: usize = from.unicode_len();
    let mut k: usize = 0;
    while k < m
        invariant
            k <= m,
            m == from@.len(),
            at + m <= s@.len(),
            s@.len() <= usize::MAX,
            forall|j: int| 0 <= j < k ==> s@[at + j] == from@[j],
        decreases m - k,
    {
        if s.get_char(at + k) != from.get_char(k) {
            proof {
                assert(s@.subrange(at as int, at + m)[k as int] != from@[k as int]);
            }
            return false;
        }
        k = k + 1;
    }
    proof {
        assert(s@.subrange(at as int, at + m) =~= from@);
    }
    true
}

/// A copy of `s` in which every occurrence of `from` has given way to `to`.
fn replace(s: &str, from: &str, to: &str) -> (r: String)
    ensures
        r@ == replaced(s@, from@, to@),
{
    let n: usize = s.unicode_len();
    let m: usize = from.unicode_len();
    if m == 0 {
        return s.to_owned();
    }
    let mut out = String::new();
    let mut i: usize = 0;
    proof {
        assert(s@.skip(0) =~= s@);
        assert(out@ + replaced(s@, from@, to@) =~= replaced(s@, from@, to@));
    }
    while n - i >= m
        invariant
            i <= n,
            n == s@.len(),
            m == from@.len(),
            m > 0,
            out@ + replaced(s@.skip(i as int), from@, to@) == replaced(s@, from@, to@),
        decreases n - i,
    {
        let ghost rest = s@.skip(i as int);
        let ghost before = out@;
        if occurs_at(s, i, from) {
            push_str(&mut out, to);
            proof {
                assert(rest.take(m as int) =~= s@.subrange(i as int, i + m));
                assert(rest.skip(m as int) =~= s@.skip(i + m));
                assert(replaced(rest, from@, to@) == to@ + replaced(
                    s@.skip(i + m),
                    from@,
                    to@,
                ));
                assert(out@ + replaced(s@.skip(i + m), from@, to@) =~= before + replaced(
                    rest,
                    from@,
                    to@,
                ));
            }
            i = i + m;
        } else {
            push_str(&mut out, s.substring_char(i, i + 1));
            proof {
                assert(rest.take(m as int) =~= s@.subrange(i as int, i + m));
                assert(rest.take(1) =~= s@.subrange(i as int, i + 1));
                assert(rest.skip(1) =~= s@.skip(i + 1));
                assert(replaced(rest, from@, to@) == rest.take(1) + replaced(
                    s@.skip(i + 1),
                    from@,
                    to@,
                ));
                assert(out@ + replaced(s@.skip(i + 1), from@, to@) =~= before + replaced(
                    rest,
                    from@,
                    to@,
                ));
            }
            i = i + 1;
        }
    }
    let ghost before = out@;
    push_str(&mut out, s.substring_char(i, n));
    proof {
        assert(s@.subrange(i as int, n as int) =~= s@.skip(i as int));
        assert(replaced(s@.skip(i as int), from@, to@) == s@.skip(i as int));
    }
    out
}

/// The one character that stands for the digit `d`, as a string.
fn digit_str(d: u8) -> (s: &'static str)
    requires
        d < 10,
    ensures
        s@ == seq![digit(d)],
{
    proof {
        reveal_strlit("0");
        reveal_strlit("1");
        reveal_strlit("2");
        reveal_strlit("3");
        reveal_strlit("4");
        reveal_strlit("5");
        reveal_strlit("6");
        reveal_strlit("7");
        reveal_strlit("8");
        reveal_strlit("9");
    }
    let s = if d == 0 {
        "0"
    } else if d == 1 {
        "1"
    } else if d == 2 {
        "2"
    } else if d == 3 {
        "3"
    } else if d == 4 {
        "4"
    } else if d == 5 {
        "5"
    } else if d == 6 {
        "6"
    } else if d == 7 {
        "7"
    } else if d == 8 {
        "8"
    } else {
        "9"
    };
    proof {
        assert(s@ =~= seq![digit(d)]);
    }
    s
}

/// The decimal digits of `n`, without leading zeros.
fn decimal(n: u8) -> (r: String)
    ensures
        r@ == decimal_text(n),
{
    let mut text = String::new();
    if n >= 100 {
        push_str(&mut text, digit_str(n / 100));
    }
    if n >= 10 {
        push_str(&mut text, digit_str(n / 10 % 10));
    }
    push_str(&mut text, digit_str(n % 10));
    proof {
        assert(text@ =~= decimal_text(n));
    }
    text
}

impl NumberInfo {
    /// The integer type named `ident`, `width` bytes wide.
    pub fn new(ident: &'static str, width: u8) -> (info: Self)
        ensures
            info.ident_text() == ident@,
            info.width_value() == width,
    {
        Self { ident, width }
    }

    /// The name of the type.
    pub closed spec fn ident_text(&self) -> Seq<char> {
        self.ident@
    }

    /// The width of the type, in bytes.
    pub closed spec fn width_value(&self) -> u8 {
        self.width
    }

    /// The name of the type.
    pub fn ident(&self) -> (s: &'static str)
        ensures
            s@ == self.ident_text(),
    {
        self.ident
    }

    /// The width of the type, in bytes.
    pub fn width(&self) -> (w: u8)
        ensures
            w == self.width_value(),
    {
        self.width
    }

    /// What `ident` becomes for this type in the byte order `endidness`.
    pub open spec fn substitution(&self, ident: Seq<char>, endidness: Endidness) -> Seq<char> {
        replaced(
            replaced(
                replaced(ident, "numend"@, short_name(endidness)),
                "numname"@,
                self.ident_text(),
            ),
            "numwidth"@,
            decimal_text(self.width_value()),
        )
    }

    /// Rewrites one identifier of an accessor template for this type.
    ///
    /// `_numname_` stands for the type and `_numwidth_` for its width. In any
    /// other identifier `numend` gives way to the two letters of the byte
    /// order, then `numname` to the type's name, then `numwidth` to the digits
    /// of the width.
    pub fn substitute(&self, ident: &str, endidness: Endidness) -> (r: Substitute)
        ensures
            r is TypeName <==> ident@ == "_numname_"@,
            r is WidthLiteral <==> ident@ != "_numname_"@ && ident@ == "_numwidth_"@,
            r matches Substitute::Renamed(s) ==> s@ == self.substitution(ident@, endidness),
    {
        let given = ident.to_owned();
        if given == "_numname_".to_owned() {
            Substitute::TypeName
        } else if given == "_numwidth_".to_owned() {
            Substitute::WidthLiteral
        } else {
            let with_order = replace(ident, "numend", endidness.short());
            let with_name = replace(with_order.as_str(), "numname", self.ident);
            let digits = decimal(self.width);
            Substitute::Renamed(replace(with_name.as_str(), "numwidth", digits.as_str()))
        }
    }
}

/// The one-byte signed type, whose accessors name no byte order.
pub fn i8_number() -> (info: NumberInfo)
    ensures
        info.ident_text() == "i8"@,
        info.width_value() == 1,
{
    NumberInfo::new("i8", 1)
}

/// The name of the `i`-th integer type that has accessors in both byte
/// orders.
pub open spec fn number_name(i: int) -> Seq<char> {
    if i == 0 {
        "u16"@
    } else if i == 1 {
        "i16"@
    } else if i == 2 {
        "u32"@
    } else if i == 3 {
        "i32"@
    } else if i == 4 {
        "u64"@
    } else if i == 5 {
        "i64"@
    } else if i == 6 {
        "u128"@
    } else {
        "i128"@
    }
}

/// The width in bytes of the `i`-th integer type that has accessors in both
/// byte orders.
pub open spec fn number_width(i: int) -> u8 {
    if i <= 1 {
        2
    } else if i <= 3 {
        4
    } else if i <= 5 {
        8
    } else {
        16
    }
}

/// The integer types that have accessors in both byte orders, each with its
/// width, in the order in which their accessors are laid out.
pub fn numbers() -> (table: Vec<NumberInfo>)
    ensures
        table@.len() == 8,
        forall|i: int|
            0 <= i < 8 ==> (#[trigger] table@[i]).ident_text() == number_name(i) && table@[i]
                .width_value() == number_width(i),
{
    let mut table: Vec<NumberInfo> = Vec::new();
    table.push(NumberInfo::new("u16", 2));
    table.push(NumberInfo::new("i16", 2));
    table.push(NumberInfo::new("u32", 4));
    table.push(NumberInfo::new("i32", 4));
    table.push(NumberInfo::new("u64", 8));
    table.push(NumberInfo::new("i64", 8));
    table.push(NumberInfo::new("u128", 16));
    table.push(NumberInfo::new("i128", 16));
    table
}

/// The order in which a template is expanded: first for the one-byte signed
/// type, then for each of the wider types in turn, in both byte orders. Of
/// the two byte orders, big-endian comes first where `big_first` says so,
/// little-endian where it does not.
pub fn expansion_order(big_first: bool) -> (order: Vec<(NumberInfo, Endidness)>)
    ensures
        order@.len() == 17,
        order@[0].0.ident_text() == "i8"@,
        order@[0].0.width_value() == 1,
        order@[0].1 == Endidness::Native,
        forall|i: int|
            0 <= i < 8 ==> {
                &&& (#[trigger] order@[1 + 2 * i]).0.ident_text() == number_name(i)
                &&& order@[1 + 2 * i].0.width_value() == number_width(i)
                &&& order@[1 + 2 * i].1 == if big_first {
                    Endidness::Big
                } else {
                    Endidness::Little
                }
            },
        forall|i: int|
            0 <= i < 8 ==> {
                &&& (#[trigger] order@[2 + 2 * i]).0.ident_text() == number_name(i)
                &&& order@[2 + 2 * i].0.width_value() == number_width(i)
                &&& order@[2 + 2 * i].1 == if big_first {
                    Endidness::Little
                } else {
                    Endidness::Big
                }
            },
{
    let table = numbers();
    let first = if big_first {
        Endidness::Big
    } else {
        Endidness::Little
    };
    let second = if big_first {
        Endidness::Little
    } else {
        Endidness::Big
    };
    let mut order: Vec<(NumberInfo, Endidness)> = Vec::new();
    order.push((i8_number(), Endidness::Native));
    let mut k: usize = 0;
    while k < 8
        invariant
            k <= 8,
            table@.len() == 8,
            forall|i: int|
                0 <= i < 8 ==> (#[trigger] table@[i]).ident_text() == number_name(i) && table@[i]
                    .width_value() == number_width(i),
            first == if big_first {
                Endidness::Big
            } else {
                Endidness::Little
            },
            second == if big_first {
                Endidness::Little
            } else {
                Endidness::Big
            },
            order@.len() == 1 + 2 * k,
            order@[0].0.ident_text() == "i8"@,
            order@[0].0.width_value() == 1,
            order@[0].1 == Endidness::Native,
            forall|i: int|
                0 <= i < k ==> {
                    &&& (#[trigger] order@[1 + 2 * i]).0.ident_text() == number_name(i)
                    &&& order@[1 + 2 * i].0.width_value() == number_width(i)
                    &&& order@[1 + 2 * i].1 == first
                },
            forall|i: int|
                0 <= i < k ==> {
                    &&& (#[trigger] order@[2 + 2 * i]).0.ident_text() == number_name(i)
                    &&& order@[2 + 2 * i].0.width_value() == number_width(i)
                    &&& order@[2 + 2 * i].1 == second
                },
        decreases 8 - k,
    {
        let info = table[k];
        order.push((info, first));
        order.push((info, second));
        k = k + 1;
    }
    order
}

/// The name of the accessor that reads a number of the type `info` at the
/// cursor and moves on: `next_`, the type, `_`, the byte order.
pub fn next_method_name(info: &NumberInfo, endidness: Endidness) -> (name: String)
    ensures
        name@ == "next_"@ + info.ident_text() + "_"@ + short_name(endidness),
{
    let mut name = "next_".to_owned();
    push_str(&mut name, info.ident());
    push_str(&mut name, "_");
    push_str(&mut name, endidness.short());
    name
}

/// The name of the accessor that reads a number of the type `info` at an
/// offset: the type, `_`, the byte order, `_at`.
pub fn at_method_name(info: &NumberInfo, endidness: Endidness) -> (name: String)
    ensures
        name@ == info.ident_text() + "_"@ + short_name(endidness) + "_at"@,
{
    let mut name = info.ident().to_owned();
    push_str(&mut name, "_");
    push_str(&mut name, endidness.short());
    push_str(&mut name, "_at");
    name
}

/// Where no occurrence of `from` can begin within `head`, because the
/// character that would have to equal `from[k]` never does, the replacement
/// leaves `head` alone and goes on behind it.
pub proof fn lemma_replaced_after(
    head: Seq<char>,
    tail: Seq<char>,
    from: Seq<char>,
    to: Seq<char>,
    k: int,
)
    requires
        0 <= k < from.len(),
        forall|j: int|
            k <= j < k + head.len() && j < (head + tail).len() ==> #[trigger] (head + tail)[j]
                != from[k],
    ensures
        replaced(head + tail, from, to) == head + replaced(tail, from, to),
    decreases head.len(),
{
    let s = head + tail;
    if head.len() == 0 {
        assert(s =~= tail);
        assert(head + replaced(tail, from, to) =~= replaced(tail, from, to));
    } else if s.len() < from.len() {
        assert(head + tail =~= s);
    } else {
        assert(s.take(from.len() as int)[k] == s[k]);
        assert(s.take(from.len() as int) != from);
        let shorter = head.skip(1);
        assert(s.skip(1) =~= shorter + tail);
        assert forall|j: int|
            k <= j < k + shorter.len() && j < (shorter + tail).len() implies #[trigger] (shorter
                + tail)[j] != from[k] by {
            assert((shorter + tail)[j] == s[j + 1]);
        }
        lemma_replaced_after(shorter, tail, from, to, k);
        assert(s.take(1) + (shorter + replaced(tail, from, to)) =~= head + replaced(
            tail,
            from,
            to,
        ));
    }
}

/// An occurrence of `from` at the very front gives way to `to`, and the
/// replacement goes on behind it.
pub proof fn lemma_replaced_front(tail: Seq<char>, from: Seq<char>, to: Seq<char>)
    requires
        from.len() > 0,
    ensures
        replaced(from + tail, from, to) == to + replaced(tail, from, to),
{
    let s = from + tail;
    assert(s.take(from.len() as int) =~= from);
    assert(s.skip(from.len() as int) =~= tail);
}

/// The views of the string literals that the templates are made of.
proof fn lemma_template_literals()
    ensures
        "numend"@ == seq!['n', 'u', 'm', 'e', 'n', 'd'],
        "numname"@ == seq!['n', 'u', 'm', 'n', 'a', 'm', 'e'],
        "numwidth"@ == seq!['n', 'u', 'm', 'w', 'i', 'd', 't', 'h'],
        "_"@ == seq!['_'],
        "_at"@ == seq!['_', 'a', 't'],
        "next_"@ == seq!['n', 'e', 'x', 't', '_'],
        "be"@ == seq!['b', 'e'],
        "le"@ == seq!['l', 'e'],
        "ne"@ == seq!['n', 'e'],
        "numname_numend_at"@ == "numname"@ + "_"@ + "numend"@ + "_at"@,
        "next_numname_numend"@ == "next_"@ + "numname"@ + "_"@ + "numend"@,
{
    reveal_strlit("numend");
    reveal_strlit("numname");
    reveal_strlit("numwidth");
    reveal_strlit("_");
    reveal_strlit("_at");
    reveal_strlit("next_");
    reveal_strlit("be");
    reveal_strlit("le");
    reveal_strlit("ne");
    reveal_strlit("numname_numend_at");
    reveal_strlit("next_numname_numend");
    assert("numend"@ =~= seq!['n', 'u', 'm', 'e', 'n', 'd']);
    assert("numname"@ =~= seq!['n', 'u', 'm', 'n', 'a', 'm', 'e']);
    assert("numwidth"@ =~= seq!['n', 'u', 'm', 'w', 'i', 'd', 't', 'h']);
    assert("_"@ =~= seq!['_']);
    assert("_at"@ =~= seq!['_', 'a', 't']);
    assert("next_"@ =~= seq!['n', 'e', 'x', 't', '_']);
    assert("be"@ =~= seq!['b', 'e']);
    assert("le"@ =~= seq!['l', 'e']);
    assert("ne"@ =~= seq!['n', 'e']);
    assert("numname_numend_at"@ =~= "numname"@ + "_"@ + "numend"@ + "_at"@);
    assert("next_numname_numend"@ =~= "next_"@ + "numname"@ + "_"@ + "numend"@);
}

/// None of the integer types that have accessors has an `m` in its name,
/// so the template laws hold of each of them.
pub proof fn lemma_type_names_hold_no_m(i: int)
    ensures
        forall|j: int| 0 <= j < number_name(i).len() ==> #[trigger] number_name(i)[j] != 'm',
        forall|j: int| 0 <= j < "i8"@.len() ==> #[trigger] "i8"@[j] != 'm',
{
    reveal_strlit("i8");
    reveal_strlit("u16");
    reveal_strlit("i16");
    reveal_strlit("u32");
    reveal_strlit("i32");
    reveal_strlit("u64");
    reveal_strlit("i64");
    reveal_strlit("u128");
    reveal_strlit("i128");
}

/// The template identifier `numname_numend_at` becomes, for a type whose
/// name holds no `m`, the name that `at_method_name` gives: the type, `_`,
/// the byte order, `_at`.
pub proof fn lemma_at_template(info: NumberInfo, endidness: Endidness)
    requires
        forall|j: int| 0 <= j < info.ident_text().len() ==> #[trigger] info.ident_text()[j] != 'm',
    ensures
        info.substitution("numname_numend_at"@, endidness) == info.ident_text() + "_"@
            + short_name(endidness) + "_at"@,
{
    lemma_template_literals();
    let short = short_name(endidness);
    let name = info.ident_text();
    let digits = decimal_text(info.width_value());
    assert(short.len() == 2 && short[0] != 'm' && short[1] != 'm');
    // the byte order
    let head1 = "numname"@ + "_"@;
    let tail1 = "numend"@ + "_at"@;
    assert("numname_numend_at"@ =~= head1 + tail1);
    assert forall|j: int| 5 <= j < 5 + head1.len() && j < (head1 + tail1).len() implies #[trigger] (
    head1 + tail1)[j] != "numend"@[5] by {
        let s = head1 + tail1;
        assert(s[5] == 'm' && s[6] == 'e' && s[7] == '_' && s[8] == 'n' && s[9] == 'u' && s[10]
            == 'm' && s[11] == 'e' && s[12] == 'n');
    }
    lemma_replaced_after(head1, tail1, "numend"@, short, 5);
    lemma_replaced_front("_at"@, "numend"@, short);
    let after1 = head1 + (short + "_at"@);
    assert(replaced("numname_numend_at"@, "numend"@, short) == after1);
    // the name
    let tail2 = "_"@ + short + "_at"@;
    assert(after1 =~= "numname"@ + tail2);
    lemma_replaced_front(tail2, "numname"@, name);
    assert(tail2.len() == 6);
    let after2 = name + tail2;
    assert(replaced(after1, "numname"@, name) == after2);
    // the width
    assert(after2 + Seq::<char>::empty() =~= after2);
    assert forall|j: int|
        2 <= j < 2 + after2.len() && j < (after2 + Seq::<char>::empty()).len() implies #[trigger] (
        after2 + Seq::<char>::empty())[j] != "numwidth"@[2] by {
        if j >= name.len() {
            assert(after2[j] == tail2[j - name.len()]);
        }
    }
    lemma_replaced_after(after2, Seq::<char>::empty(), "numwidth"@, digits, 2);
    assert(after2 + replaced(Seq::<char>::empty(), "numwidth"@, digits) =~= after2);
    assert(after2 =~= name + "_"@ + short + "_at"@);
}

/// The template identifier `next_numname_numend` becomes, for a type whose
/// name holds no `m`, the name that `next_method_name` gives: `next_`, the
/// type, `_`, the byte order.
pub proof fn lemma_next_template(info: NumberInfo, endidness: Endidness)
    requires
        forall|j: int| 0 <= j < info.ident_text().len() ==> #[trigger] info.ident_text()[j] != 'm',
    ensures
        info.substitution("next_numname_numend"@, endidness) == "next_"@ + info.ident_text()
            + "_"@ + short_name(endidness),
{
    lemma_template_literals();
    let short = short_name(endidness);
    let name = info.ident_text();
    let digits = decimal_text(info.width_value());
    assert(short.len() == 2 && short[0] != 'm' && short[1] != 'm');
    // the byte order
    let head1 = "next_"@ + "numname"@ + "_"@;
    let tail1 = "numend"@ + Seq::<char>::empty();
    assert("next_numname_numend"@ =~= head1 + tail1);
    assert forall|j: int| 5 <= j < 5 + head1.len() && j < (head1 + tail1).len() implies #[trigger] (
    head1 + tail1)[j] != "numend"@[5] by {
        let s = head1 + tail1;
        assert(s[5] == 'n' && s[6] == 'u' && s[7] == 'm' && s[8] == 'n' && s[9] == 'a' && s[10]
            == 'm' && s[11] == 'e' && s[12] == '_' && s[13] == 'n' && s[14] == 'u' && s[15]
            == 'm' && s[16] == 'e' && s[17] == 'n');
    }
    lemma_replaced_after(head1, tail1, "numend"@, short, 5);
    lemma_replaced_front(Seq::<char>::empty(), "numend"@, short);
    let after1 = head1 + short;
    assert(head1 + (short + replaced(Seq::<char>::empty(), "numend"@, short)) =~= after1);
    assert(replaced("next_numname_numend"@, "numend"@, short) == after1);
    // the name
    let head2 = "next_"@;
    let tail2 = "_"@ + short;
    assert(after1 =~= head2 + ("numname"@ + tail2));
    assert forall|j: int|
        2 <= j < 2 + head2.len() && j < (head2 + ("numname"@ + tail2)).len() implies #[trigger] (
        head2 + ("numname"@ + tail2))[j] != "numname"@[2] by {
        let s = head2 + ("numname"@ + tail2);
        assert(s[2] == 'x' && s[3] == 't' && s[4] == '_' && s[5] == 'n' && s[6] == 'u');
    }
    lemma_replaced_after(head2, "numname"@ + tail2, "numname"@, name, 2);
    lemma_replaced_front(tail2, "numname"@, name);
    assert(tail2.len() == 3);
    let after2 = head2 + (name + tail2);
    assert(replaced(after1, "numname"@, name) == after2);
    // the width
    assert(after2 + Seq::<char>::empty() =~= after2);
    assert forall|j: int|
        2 <= j < 2 + after2.len() && j < (after2 + Seq::<char>::empty()).len() implies #[trigger] (
        after2 + Seq::<char>::empty())[j] != "numwidth"@[2] by {
        if j >= 5 + name.len() {
            assert(after2[j] == tail2[j - 5 - name.len()]);
        } else if j >= 5 {
            assert(after2[j] == name[j - 5]);
        }
    }
    lemma_replaced_after(after2, Seq::<char>::empty(), "numwidth"@, digits, 2);
    assert(after2 + replaced(Seq::<char>::empty(), "numwidth"@, digits) =~= after2);
    assert(after2 =~= "next_"@ + name + "_"@ + short);
}

} // verus!
