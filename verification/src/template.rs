//! Templates with named fields, filled in by the `strfmt` crate.
//!
//! A template is text in which a key between braces, such as `{label}`,
//! stands for a value to be put in its place.

use vstd::prelude::*;

verus! {

/// The error of `strfmt::strfmt`, carried as it is: nothing in it is read.
#[verifier::external_type_specification]
#[verifier::external_body]
pub struct ExFmtError(strfmt::FmtError);

/// A key that a field can name: not empty, with no brace and no colon.
pub open spec fn plain_key(key: Seq<char>) -> bool {
    &&& key.len() > 0
    &&& forall|i: int|
        0 <= i < key.len() ==> key[i] != '{' && key[i] != '}' && #[trigger] key[i] != ':'
}

/// Text without braces: a template copies it unchanged.
pub open spec fn plain_text(text: Seq<char>) -> bool {
    forall|i: int| 0 <= i < text.len() ==> text[i] != '{' && #[trigger] text[i] != '}'
}

/// The field that names `key`: the key between braces.
pub open spec fn field(key: Seq<char>) -> Seq<char> {
    seq!['{'] + key + seq!['}']
}

/// Whether every brace in `template` belongs to a field that names one of
/// the two keys.
pub open spec fn fillable(template: Seq<char>, first_key: Seq<char>, second_key: Seq<char>) -> bool
    decreases template.len(),
{
    if template.len() == 0 {
        true
    } else if field(first_key).is_prefix_of(template) {
        fillable(template.skip(field(first_key).len() as int), first_key, second_key)
    } else if field(second_key).is_prefix_of(template) {
        fillable(template.skip(field(second_key).len() as int), first_key, second_key)
    } else {
        template[0] != '{' && template[0] != '}' && fillable(
            template.drop_first(),
            first_key,
            second_key,
        )
    }
}

/// The template with every field replaced by the value of its key, and all
/// other text kept as it is.
pub open spec fn filled(
    template: Seq<char>,
    first_key: Seq<char>,
    first: Seq<char>,
    second_key: Seq<char>,
    second: Seq<char>,
) -> Seq<char>
    decreases template.len(),
{
    if template.len() == 0 {
        Seq::empty()
    } else if field(first_key).is_prefix_of(template) {
        first + filled(
            template.skip(field(first_key).len() as int),
            first_key,
            first,
            second_key,
            second,
        )
    } else if field(second_key).is_prefix_of(template) {
        second + filled(
            template.skip(field(second_key).len() as int),
            first_key,
            first,
            second_key,
            second,
        )
    } else {
        seq![template[0]] + filled(template.drop_first(), first_key, first, second_key, second)
    }
}

/// A field is found at the start of a template only if it is the field the
/// template starts with: fields of different keys do not pass for each
/// other.
proof fn lemma_fields_differ(key: Seq<char>, other: Seq<char>, rest: Seq<char>)
    requires
        plain_key(key),
        plain_key(other),
        key != other,
    ensures
        !field(key).is_prefix_of(field(other) + rest),
{
    let template = field(other) + rest;
    if field(key).is_prefix_of(template) {
        assert forall|i: int| 0 <= i < field(key).len() implies field(key)[i] == template[i] by {
            assert(template.subrange(0, field(key).len() as int)[i] == template[i]);
        }
        let key_end = key.len() as int;
        let other_end = other.len() as int;
        if key_end < other_end {
            assert(field(key)[key_end + 1] == '}');
            assert(template[key_end + 1] == other[key_end]);
        } else if key_end > other_end {
            assert(template[other_end + 1] == '}');
            assert(field(key)[other_end + 1] == key[other_end]);
        } else {
            assert forall|i: int| 0 <= i < key.len() implies key[i] == other[i] by {
                assert(field(key)[i + 1] == key[i]);
                assert(template[i + 1] == other[i]);
            }
            assert(key =~= other);
        }
    }
}

/// A template that starts with the field of the first key is filled in by
/// putting the first value before what the rest comes to.
pub proof fn lemma_filled_first_field(
    rest: Seq<char>,
    first_key: Seq<char>,
    first: Seq<char>,
    second_key: Seq<char>,
    second: Seq<char>,
)
    ensures
        fillable(field(first_key) + rest, first_key, second_key) == fillable(
            rest,
            first_key,
            second_key,
        ),
        filled(field(first_key) + rest, first_key, first, second_key, second) == first + filled(
            rest,
            first_key,
            first,
            second_key,
            second,
        ),
{
    let template = field(first_key) + rest;
    assert(template.subrange(0, field(first_key).len() as int) =~= field(first_key));
    assert(template.skip(field(first_key).len() as int) =~= rest);
}

/// A template that starts with the field of the second key is filled in by
/// putting the second value before what the rest comes to.
pub proof fn lemma_filled_second_field(
    rest: Seq<char>,
    first_key: Seq<char>,
    first: Seq<char>,
    second_key: Seq<char>,
    second: Seq<char>,
)
    requires
        plain_key(first_key),
        plain_key(second_key),
        first_key != second_key,
    ensures
        fillable(field(second_key) + rest, first_key, second_key) == fillable(
            rest,
            first_key,
            second_key,
        ),
        filled(field(second_key) + rest, first_key, first, second_key, second) == second + filled(
            rest,
            first_key,
            first,
            second_key,
            second,
        ),
{
    let template = field(second_key) + rest;
    lemma_fields_differ(first_key, second_key, rest);
    assert(template.subrange(0, field(second_key).len() as int) =~= field(second_key));
    assert(template.skip(field(second_key).len() as int) =~= rest);
}

/// A template that starts with text free of braces is filled in by keeping
/// that text before what the rest comes to.
pub proof fn lemma_filled_text(
    text: Seq<char>,
    rest: Seq<char>,
    first_key: Seq<char>,
    first: Seq<char>,
    second_key: Seq<char>,
    second: Seq<char>,
)
    requires
        plain_text(text),
    ensures
        fillable(text + rest, first_key, second_key) == fillable(rest, first_key, second_key),
        filled(text + rest, first_key, first, second_key, second) == text + filled(
            rest,
            first_key,
            first,
            second_key,
            second,
        ),
    decreases text.len(),
{
    let template = text + rest;
    if text.len() == 0 {
        assert(template =~= rest);
        assert(text + filled(rest, first_key, first, second_key, second) =~= filled(
            rest,
            first_key,
            first,
            second_key,
            second,
        ));
    } else {
        assert(template[0] == text[0]);
        assert(!field(first_key).is_prefix_of(template)) by {
            if field(first_key).is_prefix_of(template) {
                assert(template.subrange(0, field(first_key).len() as int)[0] == template[0]);
                assert(field(first_key)[0] == '{');
            }
        }
        assert(!field(second_key).is_prefix_of(template)) by {
            if field(second_key).is_prefix_of(template) {
                assert(template.subrange(0, field(second_key).len() as int)[0] == template[0]);
                assert(field(second_key)[0] == '{');
            }
        }
        assert(template.drop_first() =~= text.drop_first() + rest);
        lemma_filled_text(text.drop_first(), rest, first_key, first, second_key, second);
        assert(seq![text[0]] + (text.drop_first() + filled(
            rest,
            first_key,
            first,
            second_key,
            second,
        )) =~= text + filled(rest, first_key, first, second_key, second));
    }
}

/// Fills `template` in through `strfmt::strfmt`, which is handed a map of
/// two entries: `first_key` to `first` and `second_key` to `second`.
///
/// Not proved: that on a template whose braces all belong to fields naming
/// one of the two keys, `strfmt` returns `Ok` with the text in which each
/// field has given way to the value of its key. Other templates are left
/// out: `strfmt` reads more into them (escaped braces, widths, alignment)
/// or rejects them.
#[verifier::external_body]
pub(crate) fn fill(
    template: &str,
    first_key: &str,
    first: &str,
    second_key: &str,
    second: &str,
) -> (text: Result<String, strfmt::FmtError>)
    requires
        plain_key(first_key@),
        plain_key(second_key@),
        first_key@ != second_key@,
        fillable(template@, first_key@, second_key@),
    ensures
        text is Ok,
        text->Ok_0@ == filled(template@, first_key@, first@, second_key@, second@),
{
    let mut vars = std::collections::HashMap::with_capacity(2);
    vars.insert(first_key.to_string(), first.to_string());
    vars.insert(second_key.to_string(), second.to_string());
    strfmt::strfmt(template, &vars)
}

} // verus!
