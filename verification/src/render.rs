//! Values as text, and texts with the values of variables filled in.

use crate::environment::Bindings;
use crate::numeral::{numeral, push_numeral};
use crate::text::{chars_of, push_text, string_of_range};
use crate::values::{values_model, EllexValue, ValueModel};
use vstd::prelude::*;

verus! {

/// The text of a value: a text as it is, a number by its numeral, a list by
/// its values between brackets, separated by a comma and a space; nil is
/// "nil". A function is written "function" and its name if `named`, and
/// "<function>" if not.
pub open spec fn rendered(v: ValueModel, named: bool) -> Seq<char>
    decreases v, 0nat,
{
    match v {
        ValueModel::Text(s) => s,
        ValueModel::Number(bits) => numeral(bits),
        ValueModel::List(items) => seq!['['] + rendered_items(items, items.len() as int, named)
            + seq![']'],
        ValueModel::Function(f) => if named {
            "function "@ + f.name
        } else {
            "<function>"@
        },
        ValueModel::Nil => "nil"@,
    }
}

/// The first `n` values of `items` as they are written in a list.
pub open spec fn rendered_items(items: Seq<ValueModel>, n: int, named: bool) -> Seq<char>
    decreases items, n,
{
    if n <= 0 || n > items.len() {
        Seq::empty()
    } else if n == 1 {
        rendered(items[0], named)
    } else {
        rendered_items(items, n - 1, named) + seq![',', ' '] + rendered(items[n - 1], named)
    }
}

/// The text that a value is shown as; a function is "<function>".
pub open spec fn shown(v: ValueModel) -> Seq<char> {
    rendered(v, false)
}

/// The text that a value is printed as; a function is "function" and its
/// name.
pub open spec fn formatted(v: ValueModel) -> Seq<char> {
    rendered(v, true)
}

/// The index of the first `c` at or after `i`, or the length of the text.
pub open spec fn find_char(s: Seq<char>, c: char, i: int) -> int
    decreases s.len() - i,
{
    if 0 <= i < s.len() && s[i] != c {
        find_char(s, c, i + 1)
    } else {
        i
    }
}

/// The text `s[from..]` with the variables between braces filled in, read
/// from left to right: `{name}` becomes the text of the value bound to
/// `name`; what is filled in is not read again. Two policies:
///
/// - not `strict`: the value is shown, and a brace that names no bound
///   variable stays as it is;
/// - `strict`: the value is printed, and braces around anything else become
///   "undefined:" and what they hold.
///
/// Either way a brace that is never closed ends the reading.
pub open spec fn filled(
    s: Seq<char>,
    from: int,
    vars: Map<Seq<char>, ValueModel>,
    strict: bool,
) -> Seq<char>
    decreases s.len() - from,
{
    let open = find_char(s, '{', from);
    let close = find_char(s, '}', open + 1);
    if from < 0 || open < from || open >= s.len() {
        s.subrange(from, s.len() as int)
    } else if close <= open || close >= s.len() {
        s.subrange(from, s.len() as int)
    } else if vars.contains_key(s.subrange(open + 1, close)) {
        s.subrange(from, open) + rendered(vars[s.subrange(open + 1, close)], strict) + filled(
            s,
            close + 1,
            vars,
            strict,
        )
    } else if strict {
        s.subrange(from, open) + "undefined:"@ + s.subrange(open + 1, close) + filled(
            s,
            close + 1,
            vars,
            strict,
        )
    } else {
        s.subrange(from, open + 1) + filled(s, open + 1, vars, strict)
    }
}

/// The value with its variables filled in: a text as `filled` says, any
/// other value as it is.
pub open spec fn interpolated(v: ValueModel, vars: Map<Seq<char>, ValueModel>, strict: bool) -> ValueModel {
    match v {
        ValueModel::Text(s) => ValueModel::Text(filled(s, 0, vars, strict)),
        _ => v,
    }
}

fn scan_for(s: &Vec<char>, c: char, i: usize) -> (e: usize)
    requires
        i <= s.len(),
    ensures
        e == find_char(s@, c, i as int),
        i <= e <= s.len(),
{
    let mut e: usize = i;
    while e < s.len() && s[e] != c
        invariant
            i <= e <= s.len(),
            find_char(s@, c, e as int) == find_char(s@, c, i as int),
        decreases s.len() - e,
    {
        e += 1;
    }
    e
}

/// Appends to `out` the text of `value`.
pub fn push_rendered(out: &mut String, value: &EllexValue, named: bool)
    ensures
        final(out)@ == old(out)@ + rendered(value@, named),
    decreases value,
{
    match value {
        EllexValue::String(s) => {
            push_text(out, s.as_str());
        },
        EllexValue::Number(bits) => {
            push_numeral(out, *bits);
        },
        EllexValue::List(items) => {
            let ghost start = out@;
            let ghost model = values_model(*items);
            out.push('[');
            let mut i: usize = 0;
            assert(out@ =~= start + seq!['['] + rendered_items(model, 0, named));
            while i < items.len()
                invariant
                    0 <= i <= items.len(),
                    model == values_model(*items),
                    model.len() == items.len(),
                    *value is List,
                    value->List_0 == *items,
                    out@ == start + seq!['['] + rendered_items(model, i as int, named),
                decreases items.len() - i,
            {
                proof {
                    assert(decreases_to!(*value => value->List_0));
                    assert(decreases_to!(value->List_0 => items[i as int]));
                    assert(model[i as int] == items[i as int]@);
                }
                if i > 0 {
                    out.push(',');
                    out.push(' ');
                }
                push_rendered(out, &items[i], named);
                i += 1;
                assert(out@ =~= start + seq!['['] + rendered_items(model, i as int, named));
            }
            out.push(']');
            assert(out@ =~= start + rendered(value@, named));
        },
        EllexValue::Function(f) => {
            if named {
                push_text(out, "function ");
                push_text(out, f.name.as_str());
                assert(out@ =~= old(out)@ + rendered(value@, named));
            } else {
                push_text(out, "<function>");
            }
        },
        EllexValue::Nil => {
            push_text(out, "nil");
        },
    }
}

/// The text that `value` is printed as.
pub fn format_output(value: &EllexValue) -> (s: String)
    ensures
        s@ == formatted(value@),
{
    let mut s = String::new();
    push_rendered(&mut s, value, true);
    assert(s@ =~= formatted(value@));
    s
}

/// Appends to `out` the text `s[from..]` with the variables of `vars`
/// filled in.
fn fill(s: &Vec<char>, from: usize, vars: &Bindings, strict: bool, out: &mut String)
    requires
        from <= s.len(),
    ensures
        final(out)@ == old(out)@ + filled(s@, from as int, vars@, strict),
    decreases s.len() - from,
{
    let open = scan_for(s, '{', from);
    if open >= s.len() {
        let rest = string_of_range(s, from, s.len());
        push_text(out, rest.as_str());
        return ;
    }
    let close = scan_for(s, '}', open + 1);
    if close >= s.len() {
        let rest = string_of_range(s, from, s.len());
        push_text(out, rest.as_str());
        return ;
    }
    let name = string_of_range(s, open + 1, close);
    match vars.get(name.as_str()) {
        Some(value) => {
            let head = string_of_range(s, from, open);
            push_text(out, head.as_str());
            push_rendered(out, value, strict);
            fill(s, close + 1, vars, strict, out);
            assert(out@ =~= old(out)@ + filled(s@, from as int, vars@, strict));
        },
        None => {
            if strict {
                let head = string_of_range(s, from, open);
                push_text(out, head.as_str());
                push_text(out, "undefined:");
                push_text(out, name.as_str());
                fill(s, close + 1, vars, strict, out);
                assert(out@ =~= old(out)@ + filled(s@, from as int, vars@, strict));
            } else {
                let head = string_of_range(s, from, open + 1);
                push_text(out, head.as_str());
                fill(s, open + 1, vars, strict, out);
                assert(out@ =~= old(out)@ + filled(s@, from as int, vars@, strict));
            }
        },
    }
}

/// The text `s` with the variables of `vars` filled in.
pub fn fill_text(s: &str, vars: &Bindings, strict: bool) -> (out: String)
    ensures
        out@ == filled(s@, 0, vars@, strict),
{
    let chars = chars_of(s);
    let mut out = String::new();
    fill(&chars, 0, vars, strict, &mut out);
    assert(out@ =~= filled(s@, 0, vars@, strict));
    out
}

impl EllexValue {
    /// The text that the value is shown as.
    pub fn to_string(&self) -> (s: String)
        ensures
            s@ == shown(self@),
    {
        let mut s = String::new();
        push_rendered(&mut s, self, false);
        assert(s@ =~= shown(self@));
        s
    }

    /// The value with the variables of `vars` filled in; braces that name no
    /// variable stay.
    pub fn interpolate(&self, vars: &Bindings) -> (r: EllexValue)
        ensures
            r@ == interpolated(self@, vars@, false),
    {
        match self {
            EllexValue::String(s) => EllexValue::String(fill_text(s.as_str(), vars, false)),
            _ => self.duplicate(),
        }
    }
}

} // verus!
