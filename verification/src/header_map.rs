//! Headers as a map: each name once, in the order of the names.

use crate::protocol::{ascending, header_models, Header, HeaderModel};
use crate::text::{before, before_is_strict, before_is_transitive, same_text, text_before};
use vstd::prelude::*;

verus! {

/// The place in the list behind all the names that come before `name`.
pub open spec fn place_of(list: Seq<HeaderModel>, name: Seq<char>) -> nat
    decreases list.len(),
{
    if list.len() == 0 {
        0
    } else if before(list.last().name, name) {
        list.len()
    } else {
        place_of(list.drop_last(), name)
    }
}

/// The list with a header in its place; one of the same name gives way.
pub open spec fn placed(list: Seq<HeaderModel>, header: HeaderModel) -> Seq<HeaderModel> {
    let at = place_of(list, header.name) as int;
    if at < list.len() && list[at].name == header.name {
        list.update(at, header)
    } else {
        list.insert(at, header)
    }
}

/// The headers as a map: of two with one name the later counts.
pub open spec fn collected(headers: Seq<HeaderModel>) -> Seq<HeaderModel>
    decreases headers.len(),
{
    if headers.len() == 0 {
        headers
    } else {
        placed(collected(headers.drop_last()), headers.last())
    }
}

/// What the last header of this name says.
pub open spec fn last_value(headers: Seq<HeaderModel>, name: Seq<char>) -> Option<Seq<char>>
    decreases headers.len(),
{
    if headers.len() == 0 {
        None
    } else if headers.last().name == name {
        Some(headers.last().value)
    } else {
        last_value(headers.drop_last(), name)
    }
}

proof fn place_is_right(list: Seq<HeaderModel>, name: Seq<char>)
    requires
        ascending(list),
    ensures
        place_of(list, name) <= list.len(),
        forall|i: int|
            0 <= i < place_of(list, name) ==> before((#[trigger] list[i]).name, name),
        forall|i: int|
            place_of(list, name) <= i < list.len() ==> !before((#[trigger] list[i]).name, name),
    decreases list.len(),
{
    if list.len() > 0 {
        let last = list.last();
        let front = list.drop_last();
        if before(last.name, name) {
            assert forall|i: int| 0 <= i < list.len() implies before(
                (#[trigger] list[i]).name,
                name,
            ) by {
                if i < list.len() - 1 {
                    before_is_transitive(list[i].name, last.name, name);
                }
            }
        } else {
            assert(ascending(front)) by {
                assert forall|i: int, j: int| 0 <= i < j < front.len() implies before(
                    #[trigger] front[i].name,
                    #[trigger] front[j].name,
                ) by {
                    assert(before(list[i].name, list[j].name));
                }
            }
            place_is_right(front, name);
            assert forall|i: int| 0 <= i < place_of(list, name) implies before(
                (#[trigger] list[i]).name,
                name,
            ) by {
                assert(list[i] == front[i]);
            }
            assert forall|i: int| place_of(list, name) <= i < list.len() implies !before(
                (#[trigger] list[i]).name,
                name,
            ) by {
                if i < front.len() {
                    assert(list[i] == front[i]);
                }
            }
        }
    }
}

proof fn placed_is_ascending(list: Seq<HeaderModel>, header: HeaderModel)
    requires
        ascending(list),
    ensures
        ascending(placed(list, header)),
{
    let at = place_of(list, header.name) as int;
    let more = placed(list, header);
    place_is_right(list, header.name);
    assert forall|i: int, j: int| 0 <= i < j < more.len() implies before(
        #[trigger] more[i].name,
        #[trigger] more[j].name,
    ) by {
        if at < list.len() && list[at].name == header.name {
            assert(more[i].name == list[i].name && more[j].name == list[j].name);
        } else {
            let from = |k: int| -> int {
                if k < at {
                    k
                } else {
                    k - 1
                }
            };
            if i == at {
                let behind = list[j - 1];
                before_is_strict(behind.name, header.name);
                if behind.name == header.name {
                    // The one at the place itself has another name.
                    assert(j - 1 > at);
                    assert(before(list[at].name, list[j - 1].name));
                    assert(!before(list[at].name, header.name));
                }
            } else if j == at {
                assert(before(list[i].name, header.name));
            } else {
                assert(before(list[from(i)].name, list[from(j)].name));
            }
        }
    }
}

proof fn value_stands(list: Seq<HeaderModel>, name: Seq<char>)
    requires
        ascending(list),
    ensures
        match last_value(list, name) {
            Some(value) => exists|i: int|
                0 <= i < list.len() && (#[trigger] list[i]).name == name && list[i].value == value,
            None => forall|i: int| 0 <= i < list.len() ==> (#[trigger] list[i]).name != name,
        },
    decreases list.len(),
{
    if list.len() > 0 {
        let front = list.drop_last();
        if list.last().name == name {
            assert(list[list.len() - 1].name == name);
        } else {
            assert forall|i: int, j: int| 0 <= i < j < front.len() implies before(
                #[trigger] front[i].name,
                #[trigger] front[j].name,
            ) by {
                assert(before(list[i].name, list[j].name));
            }
            value_stands(front, name);
            match last_value(front, name) {
                Some(value) => {
                    let i = choose|i: int|
                        0 <= i < front.len() && (#[trigger] front[i]).name == name
                            && front[i].value == value;
                    assert(list[i] == front[i]);
                },
                None => {
                    assert forall|i: int| 0 <= i < list.len() implies (#[trigger] list[i]).name
                        != name by {
                        if i < front.len() {
                            assert(list[i] == front[i]);
                        }
                    }
                },
            }
        }
    }
}

/// In an ascending list the value of a header is found wherever it stands.
proof fn standing_value(list: Seq<HeaderModel>, i: int)
    requires
        ascending(list),
        0 <= i < list.len(),
    ensures
        last_value(list, list[i].name) == Some(list[i].value),
{
    value_stands(list, list[i].name);
    let value = last_value(list, list[i].name)->0;
    let j = choose|j: int|
        0 <= j < list.len() && (#[trigger] list[j]).name == list[i].name && list[j].value == value;
    if i < j {
        before_is_strict(list[i].name, list[j].name);
        assert(before(list[i].name, list[j].name));
    } else if j < i {
        before_is_strict(list[j].name, list[i].name);
        assert(before(list[j].name, list[i].name));
    }
}

proof fn placed_value(list: Seq<HeaderModel>, header: HeaderModel, name: Seq<char>)
    requires
        ascending(list),
    ensures
        last_value(placed(list, header), name) == if name == header.name {
            Some(header.value)
        } else {
            last_value(list, name)
        },
{
    let at = place_of(list, header.name) as int;
    let more = placed(list, header);
    place_is_right(list, header.name);
    placed_is_ascending(list, header);
    let replaces = at < list.len() && list[at].name == header.name;
    if name == header.name {
        assert(more[at] == header);
        standing_value(more, at);
    } else {
        value_stands(list, name);
        value_stands(more, name);
        if last_value(list, name) is Some {
            let i = choose|i: int|
                0 <= i < list.len() && (#[trigger] list[i]).name == name && list[i].value
                    == last_value(list, name)->0;
            let j = if replaces || i < at {
                i
            } else {
                i + 1
            };
            assert(more[j] == list[i]);
            standing_value(more, j);
        } else if last_value(more, name) is Some {
            let j = choose|j: int|
                0 <= j < more.len() && (#[trigger] more[j]).name == name && more[j].value
                    == last_value(more, name)->0;
            let i = if replaces || j < at {
                j
            } else {
                j - 1
            };
            assert(more[j] == list[i]);
        }
    }
}

/// The headers as a map stand in the strict order of their names, and each name
/// has the value that was given for it last.
pub proof fn collected_headers_are_a_map(headers: Seq<HeaderModel>, name: Seq<char>)
    ensures
        ascending(collected(headers)),
        last_value(collected(headers), name) == last_value(headers, name),
    decreases headers.len(),
{
    if headers.len() > 0 {
        collected_headers_are_a_map(headers.drop_last(), name);
        placed_is_ascending(collected(headers.drop_last()), headers.last());
        placed_value(collected(headers.drop_last()), headers.last(), name);
    }
}

/// Headers that stand in order already are the map that they stand for.
pub proof fn an_ascending_list_is_its_own_map(headers: Seq<HeaderModel>)
    requires
        ascending(headers),
    ensures
        collected(headers) == headers,
    decreases headers.len(),
{
    if headers.len() > 0 {
        let front = headers.drop_last();
        let last = headers.last();
        assert(ascending(front)) by {
            assert forall|i: int, j: int| 0 <= i < j < front.len() implies before(
                #[trigger] front[i].name,
                #[trigger] front[j].name,
            ) by {
                assert(before(headers[i].name, headers[j].name));
            }
        }
        an_ascending_list_is_its_own_map(front);
        if front.len() > 0 {
            assert(before(headers[headers.len() - 2].name, headers[headers.len() - 1].name));
        }
        assert(place_of(front, last.name) == front.len());
        assert(front.insert(front.len() as int, last) =~= headers);
    }
}

#[verifier::loop_isolation(false)]
fn find_place(list: &Vec<Header>, name: &str) -> (r: usize)
    ensures
        r == place_of(header_models(list@), name@),
        r <= list@.len(),
{
    let ghost all = header_models(list@);
    let mut i: usize = list.len();
    assert(all.take(i as int) =~= all);
    while i > 0 && !text_before(&list[i - 1].name, name)
        invariant
            i <= list@.len(),
            place_of(all, name@) == place_of(all.take(i as int), name@),
        decreases i,
    {
        assert(all.take(i as int).last() == list@[i - 1]@);
        assert(all.take(i as int).drop_last() =~= all.take(i - 1));
        i -= 1;
    }
    if i > 0 {
        assert(all.take(i as int).last() == list@[i - 1]@);
    }
    i
}

/// Brings headers into the order of a map.
#[verifier::loop_isolation(false)]
pub fn collect_headers(headers: &Vec<Header>) -> (r: Vec<Header>)
    ensures
        header_models(r@) == collected(header_models(headers@)),
{
    let ghost all = header_models(headers@);
    let mut out: Vec<Header> = Vec::new();
    let mut i: usize = 0;
    assert(all.take(0) =~= Seq::<HeaderModel>::empty());
    assert(header_models(out@) =~= Seq::<HeaderModel>::empty());
    while i < headers.len()
        invariant
            i <= headers@.len(),
            header_models(out@) == collected(all.take(i as int)),
        decreases headers@.len() - i,
    {
        assert(all.take(i + 1).drop_last() =~= all.take(i as int));
        assert(all.take(i + 1).last() == headers@[i as int]@);
        let ghost before = header_models(out@);
        let at: usize = find_place(&out, &headers[i].name);
        let header = Header {
            name: headers[i].name.clone(),
            value: headers[i].value.clone(),
        };
        let ghost model = header@;
        if at < out.len() && same_text(&out[at].name, &headers[i].name) {
            assert(before[at as int] == out@[at as int]@);
            out.set(at, header);
            assert(header_models(out@) =~= before.update(at as int, model));
        } else {
            if at < out.len() {
                assert(before[at as int] == out@[at as int]@);
            }
            out.insert(at, header);
            assert(header_models(out@) =~= before.insert(at as int, model));
        }
        i += 1;
    }
    assert(all.take(i as int) =~= all);
    out
}

} // verus!
