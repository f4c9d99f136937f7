//! The message of a context-data serialization failure, which names the
//! top-level `data` entries that cannot be serialized: the serializer itself
//! reports no path, so without these names the user cannot tell which value
//! is at fault. Which entries serialize is found by the caller, which walks
//! the data and serializes each value; here the verdicts become the message.
use vstd::prelude::*;
use vstd::string::*;

verus! {

#[verifier::external_type_specification]
#[verifier::external_body]
pub struct ExEncodeError(rmp_serde::encode::Error);

/// The texts of `names`, joined with ", " between them.
pub open spec fn joined(names: Seq<Seq<char>>) -> Seq<char>
    decreases names.len(),
{
    if names.len() == 0 {
        Seq::empty()
    } else if names.len() == 1 {
        names[0]
    } else {
        joined(names.drop_last()) + ", "@ + names.last()
    }
}

/// The names of the entries that do not serialize, in the order of `entries`:
/// each entry is its key and whether its value serializes, and each name is
/// the key after "data.".
pub open spec fn offender_names(entries: Seq<(Seq<char>, bool)>) -> Seq<Seq<char>>
    decreases entries.len(),
{
    if entries.len() == 0 {
        Seq::empty()
    } else {
        let rest = offender_names(entries.drop_last());
        if entries.last().1 {
            rest
        } else {
            rest.push("data."@ + entries.last().0)
        }
    }
}

/// The message for context data that failed to serialize with the error text
/// `cause`, naming `offenders` where there are any.
pub open spec fn context_data_text(offenders: Seq<Seq<char>>, cause: Seq<char>) -> Seq<char> {
    (if offenders.len() == 0 {
        cause
    } else {
        joined(offenders) + " - "@ + cause
    }) + ". Data may only hold plain values"@
}

/// The texts of a vector of strings.
pub open spec fn texts(v: Seq<String>) -> Seq<Seq<char>> {
    v.map_values(|s: String| s@)
}

/// The key and serialize verdict of each entry, as texts.
pub open spec fn entry_views(entries: Seq<(String, bool)>) -> Seq<(Seq<char>, bool)> {
    entries.map_values(|e: (String, bool)| (e.0@, e.1))
}

/// The names, "data." and the key, of the entries whose value does not
/// serialize, in the order of `entries`.
pub fn offending_keys(entries: &Vec<(String, bool)>) -> (r: Vec<String>)
    ensures
        texts(r@) == offender_names(entry_views(entries@)),
        texts(r@) == entry_views(entries@).filter(|e: (Seq<char>, bool)| !e.1).map_values(
            |e: (Seq<char>, bool)| "data."@ + e.0,
        ),
{
    let ghost views = entry_views(entries@);
    let mut out: Vec<String> = Vec::new();
    let mut i: usize = 0;
    while i < entries.len()
        invariant
            i <= entries@.len(),
            views == entry_views(entries@),
            texts(out@) == offender_names(views.take(i as int)),
        decreases entries.len() - i,
    {
        proof {
            assert(views.take(i + 1).drop_last() =~= views.take(i as int));
        }
        if !entries[i].1 {
            let mut name = "data.".to_owned();
            name.append(entries[i].0.as_str());
            out.push(name);
            proof {
                assert(texts(out@) =~= offender_names(views.take(i as int)).push(name@));
            }
        }
        i = i + 1;
    }
    proof {
        assert(views.take(entries@.len() as int) =~= views);
        lemma_offenders_are_the_failing_entries(views);
    }
    out
}

/// The message for context data that failed to serialize with the error text
/// `cause`, naming `offenders` where there are any.
pub fn context_data_message(offenders: &Vec<String>, cause: &str) -> (m: String)
    ensures
        m@ == context_data_text(texts(offenders@), cause@),
{
    let ghost names = texts(offenders@);
    let mut m = String::new();
    if offenders.len() == 0 {
        m.append(cause);
    } else {
        let mut i: usize = 0;
        while i < offenders.len()
            invariant
                0 < offenders@.len(),
                i <= offenders@.len(),
                names == texts(offenders@),
                i == 0 ==> m@ == Seq::<char>::empty(),
                i > 0 ==> m@ == joined(names.take(i as int)),
            decreases offenders.len() - i,
        {
            if i > 0 {
                m.append(", ");
            }
            m.append(offenders[i].as_str());
            proof {
                if i > 0 {
                    assert(names.take(i + 1).drop_last() =~= names.take(i as int));
                } else {
                    assert(names.take(1)[0] == names[0]);
                }
            }
            i = i + 1;
        }
        proof {
            assert(names.take(offenders@.len() as int) =~= names);
        }
        m.append(" - ");
        m.append(cause);
    }
    m.append(". Data may only hold plain values");
    m
}

/// The message for context data that failed to serialize with `cause`, given
/// each top-level entry's key and whether its value serializes: the entries
/// that do not, as "data." and the key, joined with ", ", then " - " and the
/// error's text; just the error's text when every entry serializes.
pub fn context_data_encode(entries: &Vec<(String, bool)>, cause: &rmp_serde::encode::Error) -> (m:
    String)
    ensures
        exists|cause_text: String|
            {
                &&& to_string_from_display_ensures::<rmp_serde::encode::Error>(cause, cause_text)
                &&& m@ == context_data_text(offender_names(entry_views(entries@)), cause_text@)
                &&& m@ == context_data_text(
                    entry_views(entries@).filter(|e: (Seq<char>, bool)| !e.1).map_values(
                        |e: (Seq<char>, bool)| "data."@ + e.0,
                    ),
                    cause_text@,
                )
            },
{
    let offenders = offending_keys(entries);
    let text = cause.to_string();
    let m = context_data_message(&offenders, text.as_str());
    assert(to_string_from_display_ensures::<rmp_serde::encode::Error>(cause, text));
    m
}

/// The offenders are exactly the entries whose value does not serialize, in
/// their order, each named by "data." and its key.
pub proof fn lemma_offenders_are_the_failing_entries(entries: Seq<(Seq<char>, bool)>)
    ensures
        offender_names(entries) == entries.filter(|e: (Seq<char>, bool)| !e.1).map_values(
            |e: (Seq<char>, bool)| "data."@ + e.0,
        ),
    decreases entries.len(),
{
    if entries.len() > 0 {
        lemma_offenders_are_the_failing_entries(entries.drop_last());
        reveal(Seq::filter);
        let fails = |e: (Seq<char>, bool)| !e.1;
        let rest = entries.drop_last().filter(fails);
        let name = |e: (Seq<char>, bool)| "data."@ + e.0;
        assert(entries.filter(fails) == if fails(entries.last()) {
            rest.push(entries.last())
        } else {
            rest
        });
        if !entries.last().1 {
            assert(rest.push(entries.last()).map_values(name) =~= rest.map_values(name).push(
                name(entries.last()),
            ));
        }
    }
}

/// Joining is associative with ", " between the parts: the names of two
/// non-empty lists joined together are the two joined texts with ", " between
/// them, and one name alone is itself.
pub proof fn lemma_joined_splits(a: Seq<Seq<char>>, b: Seq<Seq<char>>)
    requires
        a.len() > 0,
    ensures
        joined(seq![a[0]]) == a[0],
        b.len() > 0 ==> joined(a + b) == joined(a) + ", "@ + joined(b),
    decreases b.len(),
{
    if b.len() > 1 {
        lemma_joined_splits(a, b.drop_last());
        assert((a + b).drop_last() =~= a + b.drop_last());
        assert((a + b).last() == b.last());
    } else if b.len() == 1 {
        assert((a + b).drop_last() =~= a);
        assert(joined(b) == b[0]);
    }
}

} // verus!
