//! What holds of the descriptors and of the text, whatever the structure.

use vstd::prelude::*;
use crate::grammar::{item_at, items, items_from};
use crate::meta::{merged, merged_all, Error, MetaView};
use crate::synth::{
    accessor_text, accessors_from, args_merged, bound_text, field_meta, field_meta_from, insert_text,
    inserts_from, resolved, resolved_from, AttributeView, FieldError, FieldView,
};
use crate::token::{LiteralView, Place, TokenView};

verus! {

/// One of the two bounds of a descriptor: the upper one, `until`, or the
/// lower one, `since`.
pub open spec fn bound_of(m: MetaView, upper: bool) -> Option<LiteralView> {
    if upper {
        m.until
    } else {
        m.since
    }
}

/// Combining descriptors fails in one way only: a bound is declared again.
pub proof fn lemma_merge_fails_as_redundant(acc: MetaView, list: Seq<MetaView>, from: int)
    requires
        merged_all(acc, list, from) is Err,
    ensures
        merged_all(acc, list, from)->Err_0 is Redundant,
    decreases list.len() - from,
{
    if 0 <= from < list.len() {
        match merged(acc, list[from]) {
            Err(e) => {},
            Ok(m) => {
                lemma_merge_fails_as_redundant(m, list, from + 1);
            },
        }
    }
}

/// A bound that is declared stays declared as far as combining succeeds, and
/// combining fails where a later descriptor declares it again.
pub proof fn lemma_declared_then_again(acc: MetaView, list: Seq<MetaView>, from: int, j: int, upper: bool)
    requires
        0 <= from <= j < list.len(),
        bound_of(acc, upper) is Some,
        bound_of(list[j], upper) is Some,
    ensures
        merged_all(acc, list, from) is Err,
    decreases list.len() - from,
{
    match merged(acc, list[from]) {
        Err(e) => {},
        Ok(m) => {
            assert(from != j);
            lemma_declared_then_again(m, list, from + 1, j, upper);
        },
    }
}

/// Where two descriptors of a list declare the same bound, `since` or
/// `until`, combining the list fails, whatever it is combined into, and the
/// failure is a redundant declaration.
pub proof fn lemma_bound_declared_twice(acc: MetaView, list: Seq<MetaView>, i: int, j: int, upper: bool)
    requires
        0 <= i < j < list.len(),
        bound_of(list[i], upper) is Some,
        bound_of(list[j], upper) is Some,
    ensures
        merged_all(acc, list, 0) is Err,
        merged_all(acc, list, 0)->Err_0 is Redundant,
{
    lemma_twice_from(acc, list, 0, i, j, upper);
    lemma_merge_fails_as_redundant(acc, list, 0);
}

proof fn lemma_twice_from(acc: MetaView, list: Seq<MetaView>, from: int, i: int, j: int, upper: bool)
    requires
        0 <= from <= i < j < list.len(),
        bound_of(list[i], upper) is Some,
        bound_of(list[j], upper) is Some,
    ensures
        merged_all(acc, list, from) is Err,
    decreases list.len() - from,
{
    match merged(acc, list[from]) {
        Err(e) => {},
        Ok(m) => {
            if from == i {
                lemma_declared_then_again(m, list, from + 1, j, upper);
            } else {
                lemma_twice_from(m, list, from + 1, i, j, upper);
            }
        },
    }
}

/// Combining two descriptors that declare different bounds succeeds and
/// keeps both; combining with the empty descriptor changes nothing.
pub proof fn lemma_merge_disjoint(a: MetaView, b: MetaView)
    ensures
        a.since is None && b.until is None ==> merged(a, b) == Ok::<MetaView, Error>(
            MetaView { since: b.since, until: a.until },
        ),
        a.until is None && b.since is None ==> merged(a, b) == Ok::<MetaView, Error>(
            MetaView { since: a.since, until: b.until },
        ),
        merged(a, MetaView::empty()) == Ok::<MetaView, Error>(a),
        merged(MetaView::empty(), b) == Ok::<MetaView, Error>(b),
{
}

/// A field none of whose annotations declares anything (each is another
/// annotation than `version`, or has no arguments) has the empty descriptor,
/// and both of its bounds are then the literal `"1.0"`.
pub proof fn lemma_unannotated_defaults(attrs: Seq<AttributeView>)
    requires
        forall|k: int| 0 <= k < attrs.len() ==> attrs[k].path != "version"@ || attrs[k].tokens.len() == 0,
    ensures
        field_meta(attrs) == Ok::<MetaView, Error>(MetaView::empty()),
        bound_text(MetaView::empty().since) == "\"1.0\""@,
        bound_text(MetaView::empty().until) == "\"1.0\""@,
{
    lemma_unannotated_from(attrs, 0);
}

proof fn lemma_unannotated_from(attrs: Seq<AttributeView>, k: int)
    requires
        0 <= k <= attrs.len(),
        forall|k: int| 0 <= k < attrs.len() ==> attrs[k].path != "version"@ || attrs[k].tokens.len() == 0,
    ensures
        field_meta_from(attrs, k, MetaView::empty()) == Ok::<MetaView, Error>(MetaView::empty()),
    decreases attrs.len() - k,
{
    if k < attrs.len() {
        lemma_unannotated_from(attrs, k + 1);
        if attrs[k].path == "version"@ {
            assert(items(attrs[k].tokens, k as usize) == Ok::<Seq<MetaView>, Error>(Seq::empty()));
            assert(merged_all(MetaView::empty(), Seq::<MetaView>::empty(), 0) == Ok::<MetaView, Error>(
                MetaView::empty(),
            ));
        }
    }
}

/// A bound that is declared before a list is combined is declared after it,
/// where combining succeeds.
pub proof fn lemma_declared_is_kept(acc: MetaView, list: Seq<MetaView>, from: int, upper: bool)
    requires
        bound_of(acc, upper) is Some,
        merged_all(acc, list, from) is Ok,
    ensures
        bound_of(merged_all(acc, list, from)->Ok_0, upper) is Some,
    decreases list.len() - from,
{
    if 0 <= from < list.len() {
        match merged(acc, list[from]) {
            Err(e) => {},
            Ok(m) => {
                lemma_declared_is_kept(m, list, from + 1, upper);
            },
        }
    }
}

/// A bound that a descriptor of the list declares is declared after the list
/// is combined, where combining succeeds.
pub proof fn lemma_declared_is_taken(acc: MetaView, list: Seq<MetaView>, from: int, p: int, upper: bool)
    requires
        0 <= from <= p < list.len(),
        bound_of(list[p], upper) is Some,
        merged_all(acc, list, from) is Ok,
    ensures
        bound_of(merged_all(acc, list, from)->Ok_0, upper) is Some,
    decreases list.len() - from,
{
    match merged(acc, list[from]) {
        Err(e) => {},
        Ok(m) => {
            if from == p {
                lemma_declared_is_kept(m, list, from + 1, upper);
            } else {
                lemma_declared_is_taken(m, list, from + 1, p, upper);
            }
        },
    }
}

/// The annotation `attrs[k]` is one of `version`, its arguments follow the
/// grammar, and one of its items declares the bound.
pub open spec fn declares(attrs: Seq<AttributeView>, k: int, upper: bool) -> bool {
    &&& 0 <= k < attrs.len()
    &&& attrs[k].path == "version"@
    &&& items(attrs[k].tokens, k as usize) is Ok
    &&& exists|p: int|
        0 <= p < items(attrs[k].tokens, k as usize)->Ok_0.len() && bound_of(
            #[trigger] items(attrs[k].tokens, k as usize)->Ok_0[p],
            upper,
        ) is Some
}

/// The arguments of every `version` annotation before `attrs[j]` follow the
/// grammar.
pub open spec fn well_formed_before(attrs: Seq<AttributeView>, j: int) -> bool {
    forall|k: int|
        0 <= k < j && k < attrs.len() && attrs[k].path == "version"@ ==> #[trigger] items(
            attrs[k].tokens,
            k as usize,
        ) is Ok
}

proof fn lemma_field_again(attrs: Seq<AttributeView>, k: int, j: int, acc: MetaView, upper: bool)
    requires
        0 <= k <= j,
        declares(attrs, j, upper),
        well_formed_before(attrs, j),
        bound_of(acc, upper) is Some,
    ensures
        field_meta_from(attrs, k, acc) is Err,
        field_meta_from(attrs, k, acc)->Err_0 is Redundant,
    decreases attrs.len() - k,
{
    if attrs[k].path != "version"@ {
        lemma_field_again(attrs, k + 1, j, acc, upper);
    } else {
        let list = items(attrs[k].tokens, k as usize)->Ok_0;
        if k == j {
            let p = choose|p: int| 0 <= p < list.len() && bound_of(#[trigger] list[p], upper) is Some;
            lemma_declared_then_again(acc, list, 0, p, upper);
            lemma_merge_fails_as_redundant(acc, list, 0);
        } else {
            assert(items(attrs[k].tokens, k as usize) is Ok);
            match merged_all(acc, list, 0) {
                Err(e) => {
                    lemma_merge_fails_as_redundant(acc, list, 0);
                },
                Ok(m) => {
                    lemma_declared_is_kept(acc, list, 0, upper);
                    lemma_field_again(attrs, k + 1, j, m, upper);
                },
            }
        }
    }
}

proof fn lemma_field_twice_from(attrs: Seq<AttributeView>, k: int, i: int, j: int, acc: MetaView, upper: bool)
    requires
        0 <= k <= i < j,
        declares(attrs, i, upper),
        declares(attrs, j, upper),
        well_formed_before(attrs, j),
    ensures
        field_meta_from(attrs, k, acc) is Err,
        field_meta_from(attrs, k, acc)->Err_0 is Redundant,
    decreases attrs.len() - k,
{
    if attrs[k].path != "version"@ {
        lemma_field_twice_from(attrs, k + 1, i, j, acc, upper);
    } else {
        let list = items(attrs[k].tokens, k as usize)->Ok_0;
        assert(items(attrs[k].tokens, k as usize) is Ok);
        match merged_all(acc, list, 0) {
            Err(e) => {
                lemma_merge_fails_as_redundant(acc, list, 0);
            },
            Ok(m) => {
                if k == i {
                    let p = choose|p: int| 0 <= p < list.len() && bound_of(#[trigger] list[p], upper) is Some;
                    lemma_declared_is_taken(acc, list, 0, p, upper);
                    lemma_field_again(attrs, k + 1, j, m, upper);
                } else {
                    lemma_field_twice_from(attrs, k + 1, i, j, m, upper);
                }
            },
        }
    }
}

/// A field that declares the same bound, `since` or `until`, in two of its
/// `version` annotations is refused, and the failure is a redundant
/// declaration. This holds where the arguments of the annotations up to the
/// second of the two follow the grammar; what comes behind it is not read.
pub proof fn lemma_field_declares_twice(attrs: Seq<AttributeView>, i: int, j: int, upper: bool)
    requires
        0 <= i < j,
        declares(attrs, i, upper),
        declares(attrs, j, upper),
        well_formed_before(attrs, j),
    ensures
        field_meta(attrs) is Err,
        field_meta(attrs)->Err_0 is Redundant,
{
    lemma_field_twice_from(attrs, 0, i, j, MetaView::empty(), upper);
}

proof fn lemma_accepted_from(fields: Seq<FieldView>, i: int, done: Seq<MetaView>)
    requires
        0 <= i <= fields.len(),
        done.len() == i,
        forall|k: int| 0 <= k < fields.len() ==> field_meta(#[trigger] fields[k].attrs) is Ok,
    ensures
        resolved_from(fields, i, done) is Ok,
        resolved_from(fields, i, done)->Ok_0.len() == fields.len(),
        forall|k: int|
            0 <= k < i ==> (#[trigger] resolved_from(fields, i, done)->Ok_0[k]) == done[k],
        forall|k: int|
            i <= k < fields.len() ==> (#[trigger] resolved_from(fields, i, done)->Ok_0[k]) == field_meta(
                fields[k].attrs,
            )->Ok_0,
    decreases fields.len() - i,
{
    if i < fields.len() {
        let m = field_meta(fields[i].attrs)->Ok_0;
        assert(field_meta(fields[i].attrs) is Ok);
        lemma_accepted_from(fields, i + 1, done.push(m));
        let r = resolved_from(fields, i, done)->Ok_0;
        assert forall|k: int| 0 <= k < i implies (#[trigger] r[k]) == done[k] by {
            assert(done.push(m)[k] == done[k]);
        }
        assert forall|k: int| i <= k < fields.len() implies (#[trigger] r[k]) == field_meta(
            fields[k].attrs,
        )->Ok_0 by {
            if k == i {
                assert(done.push(m)[i] == m);
            }
        }
    }
}

/// Where the annotations of every field are accepted, the structure is
/// accepted, and each field has the descriptor of its own annotations.
pub proof fn lemma_all_accepted(fields: Seq<FieldView>)
    requires
        forall|k: int| 0 <= k < fields.len() ==> field_meta(#[trigger] fields[k].attrs) is Ok,
    ensures
        resolved(fields) is Ok,
        resolved(fields)->Ok_0.len() == fields.len(),
        forall|k: int|
            0 <= k < fields.len() ==> (#[trigger] resolved(fields)->Ok_0[k]) == field_meta(
                fields[k].attrs,
            )->Ok_0,
{
    lemma_accepted_from(fields, 0, Seq::empty());
}

proof fn lemma_refused_from(fields: Seq<FieldView>, k: int, i: int, done: Seq<MetaView>)
    requires
        0 <= k <= i < fields.len(),
        field_meta(fields[i].attrs) is Err,
        forall|n: int| 0 <= n < i ==> field_meta(#[trigger] fields[n].attrs) is Ok,
    ensures
        resolved_from(fields, k, done) == Err::<Seq<MetaView>, FieldError>(
            FieldError { field: i as usize, error: field_meta(fields[i].attrs)->Err_0 },
        ),
    decreases i - k,
{
    if k < i {
        assert(field_meta(fields[k].attrs) is Ok);
        lemma_refused_from(fields, k + 1, i, done.push(field_meta(fields[k].attrs)->Ok_0));
    }
}

/// The first field whose annotations are refused decides for the structure:
/// the structure is refused with that field's number and that field's
/// failure, whatever the fields behind it hold.
pub proof fn lemma_first_refused(fields: Seq<FieldView>, i: int)
    requires
        0 <= i < fields.len(),
        field_meta(fields[i].attrs) is Err,
        forall|n: int| 0 <= n < i ==> field_meta(#[trigger] fields[n].attrs) is Ok,
    ensures
        resolved(fields) == Err::<Seq<MetaView>, FieldError>(
            FieldError { field: i as usize, error: field_meta(fields[i].attrs)->Err_0 },
        ),
{
    lemma_refused_from(fields, 0, i, Seq::empty());
}

proof fn lemma_accessors_then_last(
    fields: Seq<FieldView>,
    metas: Seq<MetaView>,
    last: FieldView,
    meta: MetaView,
    i: int,
    done: Seq<char>,
)
    requires
        0 <= i <= fields.len(),
        metas.len() == fields.len(),
    ensures
        accessors_from(fields.push(last), metas.push(meta), i, done) == accessors_from(fields, metas, i, done)
            + accessor_text(last.name, "_version_max"@, bound_text(meta.until)) + accessor_text(
            last.name,
            "_version_min"@,
            bound_text(meta.since),
        ),
    decreases fields.len() - i,
{
    reveal_with_fuel(accessors_from, 2);
    if i < fields.len() {
        assert(fields.push(last)[i] == fields[i]);
        assert(metas.push(meta)[i] == metas[i]);
        lemma_accessors_then_last(
            fields,
            metas,
            last,
            meta,
            i + 1,
            done + accessor_text(fields[i].name, "_version_max"@, bound_text(metas[i].until))
                + accessor_text(fields[i].name, "_version_min"@, bound_text(metas[i].since)),
        );
    } else {
        assert(fields.push(last)[i] == last);
        assert(metas.push(meta)[i] == meta);
    }
}

proof fn lemma_inserts_then_last(fields: Seq<FieldView>, keys: Seq<Seq<char>>, last: FieldView, key: Seq<char>, i: int, done: Seq<char>)
    requires
        0 <= i <= fields.len(),
        keys.len() == fields.len(),
    ensures
        inserts_from(fields.push(last), keys.push(key), i, done) == inserts_from(fields, keys, i, done)
            + insert_text(last.name, key),
    decreases fields.len() - i,
{
    reveal_with_fuel(inserts_from, 2);
    if i < fields.len() {
        assert(fields.push(last)[i] == fields[i]);
        assert(keys.push(key)[i] == keys[i]);
        lemma_inserts_then_last(fields, keys, last, key, i + 1, done + insert_text(fields[i].name, keys[i]));
    } else {
        assert(fields.push(last)[i] == last);
        assert(keys.push(key)[i] == key);
    }
}

/// The text follows the order of declaration: a field declared behind the
/// others has its two accessor routines, the upper bound first, behind
/// theirs, and its statement behind their statements. A structure without
/// fields has neither routines nor statements.
pub proof fn lemma_text_in_declaration_order(
    fields: Seq<FieldView>,
    metas: Seq<MetaView>,
    keys: Seq<Seq<char>>,
    last: FieldView,
    meta: MetaView,
    key: Seq<char>,
)
    requires
        metas.len() == fields.len(),
        keys.len() == fields.len(),
    ensures
        accessors_from(fields.push(last), metas.push(meta), 0, Seq::empty()) == accessors_from(
            fields,
            metas,
            0,
            Seq::empty(),
        ) + accessor_text(last.name, "_version_max"@, bound_text(meta.until)) + accessor_text(
            last.name,
            "_version_min"@,
            bound_text(meta.since),
        ),
        inserts_from(fields.push(last), keys.push(key), 0, Seq::empty()) == inserts_from(
            fields,
            keys,
            0,
            Seq::empty(),
        ) + insert_text(last.name, key),
        accessors_from(Seq::empty(), Seq::empty(), 0, Seq::empty()) == Seq::<char>::empty(),
        inserts_from(Seq::empty(), Seq::empty(), 0, Seq::empty()) == Seq::<char>::empty(),
{
    lemma_accessors_then_last(fields, metas, last, meta, 0, Seq::empty());
    lemma_inserts_then_last(fields, keys, last, key, 0, Seq::empty());
}

/// The tokens of `since = a, until = b`.
pub open spec fn both_bounds(tokens: Seq<TokenView>, a: Seq<char>, b: Seq<char>) -> bool {
    &&& tokens.len() == 7
    &&& tokens[0].is_word("since"@)
    &&& tokens[1].is_punct('=')
    &&& tokens[2] == TokenView::Str(a)
    &&& tokens[3].is_punct(',')
    &&& tokens[4].is_word("until"@)
    &&& tokens[5].is_punct('=')
    &&& tokens[6] == TokenView::Str(b)
}

/// The tokens of `since = a`.
pub open spec fn since_only(tokens: Seq<TokenView>, a: Seq<char>) -> bool {
    &&& tokens.len() == 3
    &&& tokens[0].is_word("since"@)
    &&& tokens[1].is_punct('=')
    &&& tokens[2] == TokenView::Str(a)
}

/// The tokens of `until = b`.
pub open spec fn until_only(tokens: Seq<TokenView>, b: Seq<char>) -> bool {
    &&& tokens.len() == 3
    &&& tokens[0].is_word("until"@)
    &&& tokens[1].is_punct('=')
    &&& tokens[2] == TokenView::Str(b)
}

/// The two keywords are different words.
pub proof fn lemma_keywords_differ()
    ensures
        "since"@ != "until"@,
{
    reveal_strlit("since");
    reveal_strlit("until");
    assert("since"@[0] == 's');
    assert("until"@[0] == 'u');
}

/// One annotation that declares `since = a, until = b` is accepted, and the
/// field's bounds are then the literals `a` and `b`: the lower bound is `a`
/// and the upper bound is `b`, whichever of the two is the greater.
pub proof fn lemma_both_bounds_in_one(attrs: Seq<AttributeView>, a: Seq<char>, b: Seq<char>)
    requires
        attrs.len() == 1,
        attrs[0].path == "version"@,
        both_bounds(attrs[0].tokens, a, b),
    ensures
        field_meta(attrs) == Ok::<MetaView, Error>(
            MetaView {
                since: Some(LiteralView { text: a, place: Place { attr: 0, token: 2 } }),
                until: Some(LiteralView { text: b, place: Place { attr: 0, token: 6 } }),
            },
        ),
        bound_text(field_meta(attrs)->Ok_0.since) == a,
        bound_text(field_meta(attrs)->Ok_0.until) == b,
{
    lemma_keywords_differ();
    let tokens = attrs[0].tokens;
    let lo = MetaView { since: Some(LiteralView { text: a, place: Place { attr: 0, token: 2 } }), until: None };
    let hi = MetaView { since: None, until: Some(LiteralView { text: b, place: Place { attr: 0, token: 6 } }) };
    assert(item_at(tokens, 0, 0) == Ok::<(MetaView, int), Error>((lo, 3)));
    assert(item_at(tokens, 0, 4) == Ok::<(MetaView, int), Error>((hi, 7)));
    reveal_with_fuel(items_from, 3);
    assert(items(tokens, 0) == Ok::<Seq<MetaView>, Error>(seq![lo, hi])) by {
        assert(Seq::<MetaView>::empty().push(lo).push(hi) =~= seq![lo, hi]);
    }
    reveal_with_fuel(merged_all, 3);
    reveal_with_fuel(field_meta_from, 2);
}

/// A field with two annotations, each of which declares `since`, is refused:
/// the second declaration is redundant. The same holds of `until`.
pub proof fn lemma_same_bound_in_two(attrs: Seq<AttributeView>, a: Seq<char>, b: Seq<char>, upper: bool)
    requires
        attrs.len() == 2,
        attrs[0].path == "version"@,
        attrs[1].path == "version"@,
        !upper ==> since_only(attrs[0].tokens, a) && since_only(attrs[1].tokens, b),
        upper ==> until_only(attrs[0].tokens, a) && until_only(attrs[1].tokens, b),
    ensures
        field_meta(attrs) == Err::<MetaView, Error>(
            Error::Redundant { first: Place { attr: 0, token: 2 }, again: Place { attr: 1, token: 2 } },
        ),
{
    lemma_keywords_differ();
    let la = Some(LiteralView { text: a, place: Place { attr: 0, token: 2 } });
    let lb = Some(LiteralView { text: b, place: Place { attr: 1, token: 2 } });
    let ma = if upper { MetaView { since: None, until: la } } else { MetaView { since: la, until: None } };
    let mb = if upper { MetaView { since: None, until: lb } } else { MetaView { since: lb, until: None } };
    let ta = attrs[0].tokens;
    let tb = attrs[1].tokens;
    assert(item_at(ta, 0, 0) == Ok::<(MetaView, int), Error>((ma, 3)));
    assert(item_at(tb, 1, 0) == Ok::<(MetaView, int), Error>((mb, 3)));
    reveal_with_fuel(items_from, 2);
    assert(items(ta, 0) == Ok::<Seq<MetaView>, Error>(seq![ma])) by {
        assert(Seq::<MetaView>::empty().push(ma) =~= seq![ma]);
    }
    assert(items(tb, 1) == Ok::<Seq<MetaView>, Error>(seq![mb])) by {
        assert(Seq::<MetaView>::empty().push(mb) =~= seq![mb]);
    }
    reveal_with_fuel(merged_all, 2);
    assert(args_merged(MetaView::empty(), ta, 0) == Ok::<MetaView, Error>(ma));
    assert(args_merged(ma, tb, 1) is Err);
    reveal_with_fuel(field_meta_from, 3);
}

} // verus!
