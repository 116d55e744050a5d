//! What holds of the operations on the entries of a parse error, whatever
//! the entries are.
use crate::error::{
    distinct, holds, insert, insert_all, lemma_without_expected_empty, lemma_without_expected_push,
    without_expected,
};
use crate::info::{same_error, same_info, Error, ErrorView, Info, InfoView};
use crate::positioner::Positioner;
use vstd::prelude::*;

verus! {

/// The info of an error; of an error from elsewhere, its text as a message.
pub open spec fn info_of<T, R>(e: ErrorView<T, R>) -> InfoView<T, R> {
    match e {
        ErrorView::Unexpected(i) => i,
        ErrorView::Expected(i) => i,
        ErrorView::Message(i) => i,
        ErrorView::Other(s) => InfoView::Message(s),
    }
}

/// The equality of infos is symmetric and transitive.
pub proof fn lemma_same_info_laws<T: Positioner, R: Positioner>(
    a: InfoView<T, R>,
    b: InfoView<T, R>,
    c: InfoView<T, R>,
)
    ensures
        same_info(a, b) ==> same_info(b, a),
        same_info(a, b) && same_info(b, c) ==> same_info(a, c),
{
    match (a, b, c) {
        (InfoView::Token(x), InfoView::Token(y), InfoView::Token(z)) => {
            T::lemma_same(&x, &y, &z);
        },
        (InfoView::Token(x), InfoView::Token(y), _) => {
            T::lemma_same(&x, &y, &y);
        },
        (InfoView::Range(x), InfoView::Range(y), InfoView::Range(z)) => {
            R::lemma_same(&x, &y, &z);
        },
        (InfoView::Range(x), InfoView::Range(y), _) => {
            R::lemma_same(&x, &y, &y);
        },
        _ => {},
    }
}

/// The equality of errors is symmetric.
pub proof fn lemma_same_error_symmetric<T: Positioner, R: Positioner>(
    a: ErrorView<T, R>,
    b: ErrorView<T, R>,
)
    requires
        same_error(a, b),
    ensures
        same_error(b, a),
{
    lemma_same_info_laws(info_of(a), info_of(b), info_of(b));
}

/// The equality of errors is transitive.
pub proof fn lemma_same_error_transitive<T: Positioner, R: Positioner>(
    a: ErrorView<T, R>,
    b: ErrorView<T, R>,
    c: ErrorView<T, R>,
)
    requires
        same_error(a, b),
        same_error(b, c),
    ensures
        same_error(a, c),
{
    lemma_same_info_laws(info_of(a), info_of(b), info_of(c));
}

/// Inserting an entry into a list without duplicates leaves it without duplicates.
pub proof fn lemma_insert_keeps_distinct<T: Positioner, R: Positioner>(
    errors: Seq<Error<T, R>>,
    e: Error<T, R>,
)
    requires
        distinct(errors),
    ensures
        distinct(insert(errors, e)),
{
    if !holds(errors, e) {
        let longer = errors.push(e);
        assert forall|i: int, j: int| 0 <= i < j < longer.len() implies !same_error(
            (#[trigger] longer[i])@,
            (#[trigger] longer[j])@,
        ) by {
            if j == errors.len() {
                assert(!same_error(errors[i]@, e@));
            } else {
                assert(!same_error(errors[i]@, errors[j]@));
            }
        }
    }
}

/// Inserting entries one after another into a list without duplicates leaves
/// it without duplicates.
pub proof fn lemma_insert_all_keeps_distinct<T: Positioner, R: Positioner>(
    errors: Seq<Error<T, R>>,
    more: Seq<Error<T, R>>,
)
    requires
        distinct(errors),
    ensures
        distinct(insert_all(errors, more)),
    decreases more.len(),
{
    if more.len() > 0 {
        lemma_insert_all_keeps_distinct(errors, more.drop_last());
        lemma_insert_keeps_distinct(insert_all(errors, more.drop_last()), more.last());
    }
}

/// Inserting keeps what was there, in its place.
pub proof fn lemma_insert_all_extends<T: Positioner, R: Positioner>(
    errors: Seq<Error<T, R>>,
    more: Seq<Error<T, R>>,
)
    ensures
        errors.len() <= insert_all(errors, more).len() <= errors.len() + more.len(),
        insert_all(errors, more).take(errors.len() as int) == errors,
    decreases more.len(),
{
    if more.len() > 0 {
        lemma_insert_all_extends(errors, more.drop_last());
        let before = insert_all(errors, more.drop_last());
        assert(insert(before, more.last()).take(errors.len() as int) =~= before.take(
            errors.len() as int,
        ));
    } else {
        assert(errors.take(errors.len() as int) =~= errors);
    }
}

/// No earlier entry of `errors` equals the entry at `j`.
pub open spec fn is_first<T: Positioner, R: Positioner>(errors: Seq<Error<T, R>>, j: int) -> bool {
    forall|i: int| 0 <= i < j ==> !same_error((#[trigger] errors[i])@, errors[j]@)
}

/// The entries of `errors` that no earlier entry equals, in their order.
pub open spec fn first_occurrences<T: Positioner, R: Positioner>(errors: Seq<Error<T, R>>) -> Seq<
    Error<T, R>,
>
    decreases errors.len(),
{
    if errors.len() == 0 {
        errors
    } else if is_first(errors, errors.len() - 1) {
        first_occurrences(errors.drop_last()).push(errors.last())
    } else {
        first_occurrences(errors.drop_last())
    }
}

/// An entry equals one of the first occurrences exactly when it equals one of
/// all the entries.
pub proof fn lemma_first_occurrences_hold_the_same<T: Positioner, R: Positioner>(
    errors: Seq<Error<T, R>>,
    e: Error<T, R>,
)
    ensures
        holds(first_occurrences(errors), e) <==> holds(errors, e),
    decreases errors.len(),
{
    if errors.len() > 0 {
        let init = errors.drop_last();
        let last = errors.last();
        let firsts = first_occurrences(errors);
        let before = first_occurrences(init);
        lemma_first_occurrences_hold_the_same(init, e);
        if holds(firsts, e) {
            let k = choose|k: int| 0 <= k < firsts.len() && same_error((#[trigger] firsts[k])@, e@);
            if k < before.len() {
                assert(before[k] == firsts[k]);
                assert(holds(before, e));
                let i = choose|i: int| 0 <= i < init.len() && same_error((#[trigger] init[i])@, e@);
                assert(errors[i] == init[i]);
            } else {
                assert(firsts[k] == last);
                assert(same_error(errors[errors.len() - 1]@, e@));
            }
            assert(holds(errors, e));
        }
        if holds(errors, e) {
            let i = choose|i: int| 0 <= i < errors.len() && same_error((#[trigger] errors[i])@, e@);
            if i < init.len() {
                assert(init[i] == errors[i]);
                assert(holds(init, e));
            } else if is_first(errors, errors.len() - 1) {
                assert(firsts[before.len() as int] == last);
            } else {
                let w = choose|w: int|
                    0 <= w < errors.len() - 1 && same_error(
                        (#[trigger] errors[w])@,
                        errors[errors.len() - 1]@,
                    );
                lemma_same_error_transitive(errors[w]@, last@, e@);
                assert(init[w] == errors[w]);
                assert(holds(init, e));
            }
            if holds(init, e) {
                let k = choose|k: int| 0 <= k < before.len() && same_error((#[trigger] before[k])@, e@);
                assert(firsts[k] == before[k]);
            }
            assert(holds(firsts, e));
        }
    }
}

/// Entries added one after another to an empty error are kept exactly where
/// no earlier one equals them, in the order in which they came.
pub proof fn lemma_insert_all_keeps_first_occurrences<T: Positioner, R: Positioner>(
    entries: Seq<Error<T, R>>,
)
    ensures
        insert_all(Seq::<Error<T, R>>::empty(), entries) == first_occurrences(entries),
        distinct(first_occurrences(entries)),
    decreases entries.len(),
{
    lemma_insert_all_keeps_distinct(Seq::<Error<T, R>>::empty(), entries);
    if entries.len() > 0 {
        let init = entries.drop_last();
        let last = entries.last();
        lemma_insert_all_keeps_first_occurrences(init);
        lemma_first_occurrences_hold_the_same(init, last);
        if holds(init, last) {
            let w = choose|w: int| 0 <= w < init.len() && same_error((#[trigger] init[w])@, last@);
            assert(entries[w] == init[w]);
            assert(!is_first(entries, entries.len() - 1));
        } else {
            assert forall|i: int| 0 <= i < entries.len() - 1 implies !same_error(
                (#[trigger] entries[i])@,
                entries[entries.len() - 1]@,
            ) by {
                assert(init[i] == entries[i]);
            }
        }
    }
}

/// `errors` with every `Expected` entry removed and `Expected(message)` put
/// at the end.
pub open spec fn with_expected<T, R>(errors: Seq<Error<T, R>>, message: Info<T, R>) -> Seq<
    Error<T, R>,
> {
    without_expected(errors).push(Error::Expected(message))
}

/// Each entry of `without_expected` is an entry of the list, and none is `Expected`.
pub proof fn lemma_without_expected_entries<T, R>(errors: Seq<Error<T, R>>, k: int)
    requires
        0 <= k < without_expected(errors).len(),
    ensures
        !(without_expected(errors)[k] is Expected),
        exists|i: int| 0 <= i < errors.len() && #[trigger] errors[i] == without_expected(errors)[k],
    decreases errors.len(),
{
    if errors.len() == 0 {
        assert(errors =~= Seq::<Error<T, R>>::empty());
        lemma_without_expected_empty::<T, R>();
    } else {
        let init = errors.drop_last();
        assert(init.push(errors.last()) =~= errors);
        lemma_without_expected_push(init, errors.last());
        if k < without_expected(init).len() {
            lemma_without_expected_entries(init, k);
            let i = choose|i: int|
                0 <= i < init.len() && #[trigger] init[i] == without_expected(init)[k];
            assert(errors[i] == init[i]);
        } else {
            assert(errors[errors.len() - 1] == without_expected(errors)[k]);
        }
    }
}

/// Where nothing is `Expected`, `without_expected` removes nothing.
pub proof fn lemma_without_expected_of_none<T, R>(errors: Seq<Error<T, R>>)
    requires
        forall|i: int| 0 <= i < errors.len() ==> !((#[trigger] errors[i]) is Expected),
    ensures
        without_expected(errors) == errors,
    decreases errors.len(),
{
    if errors.len() == 0 {
        assert(errors =~= Seq::<Error<T, R>>::empty());
        lemma_without_expected_empty::<T, R>();
    } else {
        let init = errors.drop_last();
        assert(init.push(errors.last()) =~= errors);
        assert forall|i: int| 0 <= i < init.len() implies !((#[trigger] init[i]) is Expected) by {
            assert(init[i] == errors[i]);
        }
        lemma_without_expected_of_none(init);
        lemma_without_expected_push(init, errors.last());
    }
}

/// After the expectation has been set there is one `Expected` entry, the last,
/// and it holds the message; the entries of the other kinds are as before.
pub proof fn lemma_with_expected_is_single<T, R>(errors: Seq<Error<T, R>>, message: Info<T, R>)
    ensures
        with_expected(errors, message).last() == Error::Expected(message),
        forall|k: int|
            0 <= k < with_expected(errors, message).len() - 1 ==> !((#[trigger] with_expected(
                errors,
                message,
            )[k]) is Expected),
        without_expected(with_expected(errors, message)) == without_expected(errors),
{
    let kept = without_expected(errors);
    assert forall|k: int| 0 <= k < kept.len() implies !((#[trigger] kept[k]) is Expected) by {
        lemma_without_expected_entries(errors, k);
    }
    lemma_without_expected_of_none(kept);
    lemma_without_expected_push(kept, Error::Expected(message));
}

/// Setting the expectation replaces an expectation set before; setting the
/// same twice is setting it once.
pub proof fn lemma_with_expected_replaces<T, R>(
    errors: Seq<Error<T, R>>,
    first: Info<T, R>,
    second: Info<T, R>,
)
    ensures
        with_expected(with_expected(errors, first), second) == with_expected(errors, second),
        with_expected(with_expected(errors, first), first) == with_expected(errors, first),
{
    lemma_with_expected_is_single(errors, first);
}

/// Setting the expectation on a list without duplicates leaves it without duplicates.
pub proof fn lemma_with_expected_keeps_distinct<T: Positioner, R: Positioner>(
    errors: Seq<Error<T, R>>,
    message: Info<T, R>,
)
    requires
        distinct(errors),
    ensures
        distinct(with_expected(errors, message)),
{
    let kept = without_expected(errors);
    let set = with_expected(errors, message);
    assert forall|i: int, j: int| 0 <= i < j < set.len() implies !same_error(
        (#[trigger] set[i])@,
        (#[trigger] set[j])@,
    ) by {
        lemma_without_expected_entries(errors, i);
        if j < kept.len() {
            lemma_without_expected_order(errors, i, j);
        }
    }
}

/// `without_expected` keeps the order of the entries: two of its entries
/// stand in the list in the same order.
pub proof fn lemma_without_expected_order<T, R>(errors: Seq<Error<T, R>>, a: int, b: int)
    requires
        0 <= a < b < without_expected(errors).len(),
    ensures
        exists|i: int, j: int|
            0 <= i < j < errors.len() && #[trigger] errors[i] == without_expected(errors)[a]
                && #[trigger] errors[j] == without_expected(errors)[b],
    decreases errors.len(),
{
    if errors.len() == 0 {
        assert(errors =~= Seq::<Error<T, R>>::empty());
        lemma_without_expected_empty::<T, R>();
    } else {
        let init = errors.drop_last();
        assert(init.push(errors.last()) =~= errors);
        lemma_without_expected_push(init, errors.last());
        if b < without_expected(init).len() {
            lemma_without_expected_order(init, a, b);
            let (i, j) = choose|i: int, j: int|
                0 <= i < j < init.len() && #[trigger] init[i] == without_expected(init)[a]
                    && #[trigger] init[j] == without_expected(init)[b];
            assert(errors[i] == init[i]);
            assert(errors[j] == init[j]);
        } else {
            lemma_without_expected_entries(init, a);
            let i = choose|i: int|
                0 <= i < init.len() && #[trigger] init[i] == without_expected(init)[a];
            assert(errors[i] == init[i]);
            assert(errors[errors.len() - 1] == without_expected(errors)[b]);
        }
    }
}

} // verus!
