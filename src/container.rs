//! What the library knows of one running container.
use vstd::prelude::*;

use crate::labels::{has_label_prefix, in_namespace, keys_distinct};

verus! {

/// One exposable container as seen at the last refresh: its name, its network
/// address, and its labels under the library's namespace.
#[derive(Debug)]
pub struct ContainerInfo {
    name: String,
    ip: String,
    labels: Vec<(String, String)>,
}

/// Mathematical model of a [`ContainerInfo`].
pub struct ContainerView {
    pub name: Seq<char>,
    pub ip: Seq<char>,
    pub labels: Seq<(Seq<char>, Seq<char>)>,
}

impl DeepView for ContainerInfo {
    type V = ContainerView;

    closed spec fn deep_view(&self) -> ContainerView {
        ContainerView { name: self.name@, ip: self.ip@, labels: self.labels.deep_view() }
    }
}

/// The labels that lie under the library's namespace, in their order.
pub open spec fn namespaced(labels: Seq<(Seq<char>, Seq<char>)>) -> Seq<(Seq<char>, Seq<char>)> {
    labels.filter(|p: (Seq<char>, Seq<char>)| in_namespace(p.0))
}

/// The name a container is known by: the first the runtime lists, or empty.
pub open spec fn first_name(names: Option<Seq<Seq<char>>>) -> Seq<char> {
    match names {
        Some(ns) => if ns.len() > 0 {
            ns[0]
        } else {
            Seq::empty()
        },
        None => Seq::empty(),
    }
}

impl ContainerInfo {
    /// Builds the record of a container from what the runtime reports of it,
    /// keeping only the labels under the library's namespace.
    pub fn new(name: String, ip: String, labels: Vec<(String, String)>) -> (r: Self)
        ensures
            r.deep_view() == (ContainerView {
                name: name@,
                ip: ip@,
                labels: namespaced(labels.deep_view()),
            }),
            keys_distinct(labels.deep_view()) ==> keys_distinct(r.deep_view().labels),
    {
        let ghost all = labels.deep_view();
        let ghost mut origin: Seq<int> = Seq::empty();
        let mut kept: Vec<(String, String)> = Vec::new();
        let mut i: usize = 0;
        proof {
            reveal(Seq::filter);
            assert(all.take(0) =~= Seq::<(Seq<char>, Seq<char>)>::empty());
        }
        while i < labels.len()
            invariant
                i <= labels.len(),
                all == labels.deep_view(),
                kept.deep_view() == namespaced(all.take(i as int)),
                origin.len() == kept.len(),
                forall|j: int|
                    0 <= j < origin.len() ==> 0 <= #[trigger] origin[j] < i && kept.deep_view()[j]
                        == all[origin[j]],
                keys_distinct(all) ==> keys_distinct(kept.deep_view()),
            decreases labels.len() - i,
        {
            proof {
                reveal(Seq::filter);
                assert(all.take(i + 1).drop_last() =~= all.take(i as int));
            }
            let k = labels[i].0.as_str();
            if has_label_prefix(k) {
                let v = labels[i].1.clone();
                let key = labels[i].0.clone();
                let ghost before = kept.deep_view();
                kept.push((key, v));
                proof {
                    origin = origin.push(i as int);
                    assert(kept.deep_view()[before.len() as int] == all[i as int]);
                    assert forall|j: int| 0 <= j < before.len() implies kept.deep_view()[j] == before[j] by {}
                    if keys_distinct(all) {
                        let now = kept.deep_view();
                        assert forall|j: int, l: int| 0 <= j < l < now.len() implies now[j].0 != now[l].0 by {
                            if l == before.len() {
                                assert(now[j] == all[origin[j]]);
                                assert(now[l] == all[i as int]);
                                assert(origin[j] < i);
                            } else {
                                assert(now[j] == before[j]);
                                assert(now[l] == before[l]);
                            }
                        }
                    }
                }
            }
            i += 1;
            assert(kept.deep_view() =~= namespaced(all.take(i as int)));
        }
        proof {
            assert(all.take(i as int) =~= all);
        }
        ContainerInfo { name, ip, labels: kept }
    }

    /// Builds the record of a container from the optional fields the runtime
    /// reports: the first of its names, its address, and its labels under the
    /// library's namespace, each defaulting to empty when absent.
    pub fn from_runtime(
        names: Option<Vec<String>>,
        ip: Option<String>,
        labels: Option<Vec<(String, String)>>,
    ) -> (r: Self)
        ensures
            r.deep_view() == (ContainerView {
                name: first_name(names.deep_view()),
                ip: match ip {
                    Some(a) => a@,
                    None => Seq::empty(),
                },
                labels: match labels {
                    Some(ls) => namespaced(ls.deep_view()),
                    None => namespaced(Seq::empty()),
                },
            }),
            labels matches Some(ls) && keys_distinct(ls.deep_view()) ==> keys_distinct(
                r.deep_view().labels,
            ),
    {
        let name = match names {
            Some(ns) => if ns.len() > 0 {
                ns[0].clone()
            } else {
                String::new()
            },
            None => String::new(),
        };
        let ip = match ip {
            Some(a) => a,
            None => String::new(),
        };
        let labels = match labels {
            Some(ls) => ls,
            None => {
                let none: Vec<(String, String)> = Vec::new();
                assert(none.deep_view() =~= Seq::empty());
                none
            },
        };
        ContainerInfo::new(name, ip, labels)
    }

    /// Display name the runtime gave the container.
    pub fn name(&self) -> (r: &String)
        ensures
            r@ == self.deep_view().name,
    {
        &self.name
    }

    /// Network address of the container; empty when it has none.
    pub fn ip(&self) -> (r: &String)
        ensures
            r@ == self.deep_view().ip,
    {
        &self.ip
    }

    /// Labels of the container under the library's namespace.
    pub fn labels(&self) -> (r: &Vec<(String, String)>)
        ensures
            r.deep_view() == self.deep_view().labels,
    {
        &self.labels
    }

    /// An independent copy of this record.
    pub fn duplicate(&self) -> (r: Self)
        ensures
            r.deep_view() == self.deep_view(),
    {
        let ghost src = self.labels.deep_view();
        let mut out: Vec<(String, String)> = Vec::new();
        let mut i: usize = 0;
        while i < self.labels.len()
            invariant
                i <= self.labels.len(),
                src == self.labels.deep_view(),
                out.deep_view() == src.take(i as int),
            decreases self.labels.len() - i,
        {
            let k = self.labels[i].0.clone();
            let v = self.labels[i].1.clone();
            let ghost before = out.deep_view();
            out.push((k, v));
            assert(out.deep_view().len() == before.len() + 1);
            assert(out.deep_view()[i as int] == src[i as int]);
            i += 1;
            assert(out.deep_view() =~= src.take(i as int));
        }
        assert(out.deep_view() =~= src);
        ContainerInfo { name: self.name.clone(), ip: self.ip.clone(), labels: out }
    }
}

/// An independent copy of a list of container records.
pub fn duplicate_all(cs: &Vec<ContainerInfo>) -> (r: Vec<ContainerInfo>)
    ensures
        r.deep_view() == cs.deep_view(),
{
    let mut out: Vec<ContainerInfo> = Vec::new();
    let mut i: usize = 0;
    while i < cs.len()
        invariant
            i <= cs.len(),
            out.deep_view() == cs.deep_view().take(i as int),
        decreases cs.len() - i,
    {
        let ghost before = out.deep_view();
        let c = cs[i].duplicate();
        assert(c.deep_view() == cs.deep_view()[i as int]);
        out.push(c);
        assert(out.deep_view().len() == before.len() + 1);
        assert(out.deep_view()[i as int] == cs.deep_view()[i as int]);
        i += 1;
        assert(out.deep_view() =~= cs.deep_view().take(i as int));
    }
    assert(out.deep_view() =~= cs.deep_view());
    out
}

} // verus!
