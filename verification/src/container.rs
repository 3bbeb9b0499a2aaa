//! The container descriptor: what the aggregation engine reads of one running
//! container — its identifier and its label set — together with the derived
//! display name that identifies the container's metrics in the merged payload.

use vstd::prelude::*;
use vstd::string::StringExecFns;

verus! {

/// One running container as discovery reports it: an opaque identifier and
/// its labels as key/value pairs. Obtained fresh on every aggregation pass
/// and discarded after it.
pub struct ContainerDescriptor {
    pub id: String,
    pub labels: Vec<(String, String)>,
}

/// The value of the first label whose key is `key`, if any. Label keys are
/// unique on a real container, so the first match is the match.
pub open spec fn lookup_label(labels: Seq<(String, String)>, key: Seq<char>) -> Option<Seq<char>>
    decreases labels.len(),
{
    if labels.len() == 0 {
        None
    } else if labels[0].0@ == key {
        Some(labels[0].1@)
    } else {
        lookup_label(labels.drop_first(), key)
    }
}

/// The identity a container's metrics are labeled with: the value of the
/// well-known name label, or the fixed fallback when that label is absent.
pub open spec fn display_name_spec(labels: Seq<(String, String)>) -> Seq<char> {
    match lookup_label(labels, "com.amazonaws.ecs.container-name"@) {
        Some(v) => v,
        None => "unknown-service"@,
    }
}

/// The value of the first label with the given key, if any.
pub fn find_label<'a>(labels: &'a Vec<(String, String)>, key: &String) -> (r: Option<&'a String>)
    ensures
        match r {
            Some(v) => lookup_label(labels@, key@) == Some(v@),
            None => lookup_label(labels@, key@) is None,
        },
{
    let n = labels.len();
    let mut i: usize = 0;
    proof {
        assert(labels@.skip(0) =~= labels@);
    }
    while i < n
        invariant
            i <= n,
            n == labels@.len(),
            lookup_label(labels@.skip(i as int), key@) == lookup_label(labels@, key@),
        decreases n - i,
    {
        proof {
            assert(labels@.skip(i as int)[0] == labels@[i as int]);
        }
        if labels[i].0.eq(key) {
            return Some(&labels[i].1);
        }
        proof {
            assert(labels@.skip(i as int).drop_first() =~= labels@.skip(i + 1));
        }
        i = i + 1;
    }
    proof {
        assert(labels@.skip(n as int) =~= Seq::<(String, String)>::empty());
    }
    None
}

impl ContainerDescriptor {
    /// The display name used as this container's identity in the payload:
    /// the well-known name label's value, or the fallback constant.
    pub fn display_name(&self) -> (r: String)
        ensures
            r@ == display_name_spec(self.labels@),
    {
        let key = "com.amazonaws.ecs.container-name".to_owned();
        match find_label(&self.labels, &key) {
            Some(v) => v.clone(),
            None => "unknown-service".to_owned(),
        }
    }
}

} // verus!
