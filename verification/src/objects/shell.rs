//! Shells.

use vstd::prelude::*;
use crate::objects::face::Face;
use crate::storage::Handle;

verus! {

/// A shell: a set of faces that are meant to enclose a volume.
///
/// Whether they do is not decided when a shell is made; validation finds
/// out. The faces are kept in the order of their ids, each once.
#[derive(Debug, PartialEq, Eq, Hash)]
pub struct Shell {
    faces: Vec<Handle<Face>>,
}

/// Whether face `i` has a lesser id than face `j`.
pub open spec fn spec_ascending(faces: Seq<Handle<Face>>, i: int, j: int) -> bool {
    faces[i].spec_id() < faces[j].spec_id()
}

/// Whether the faces are in the order of their ids, each once.
pub open spec fn spec_is_set(faces: Seq<Handle<Face>>) -> bool {
    forall|i: int, j: int| 0 <= i < j < faces.len() ==> #[trigger] spec_ascending(faces, i, j)
}

/// There is one way only to put a set of faces in the order of their ids.
pub proof fn lemma_set_order_unique(a: Seq<Handle<Face>>, b: Seq<Handle<Face>>)
    requires
        spec_is_set(a),
        spec_is_set(b),
        a.to_set() == b.to_set(),
    ensures
        a == b,
    decreases a.len(),
{
    if a.len() == 0 {
        if b.len() > 0 {
            assert(b.contains(b[0]));
            assert(a.to_set().contains(b[0]));
        }
        assert(a =~= b);
    } else {
        let top = a.last();
        assert(a.contains(top)) by {
            assert(a[a.len() - 1] == top);
        }
        assert(b.to_set().contains(top));
        let at = choose|k: int| 0 <= k < b.len() && b[k] == top;
        assert(at == b.len() - 1) by {
            if at < b.len() - 1 {
                assert(spec_ascending(b, at, b.len() - 1));
                assert(b.contains(b[b.len() - 1]));
                assert(a.to_set().contains(b[b.len() - 1]));
                let back = choose|k: int| 0 <= k < a.len() && a[k] == b[b.len() - 1];
                if back < a.len() - 1 {
                    assert(spec_ascending(a, back, a.len() - 1));
                }
            }
        }
        let rest_a = a.drop_last();
        let rest_b = b.drop_last();
        assert forall|i: int, j: int| 0 <= i < j < rest_a.len() implies #[trigger] spec_ascending(
            rest_a,
            i,
            j,
        ) by {
            assert(spec_ascending(a, i, j));
        }
        assert forall|i: int, j: int| 0 <= i < j < rest_b.len() implies #[trigger] spec_ascending(
            rest_b,
            i,
            j,
        ) by {
            assert(spec_ascending(b, i, j));
        }
        assert(rest_a.to_set() =~= rest_b.to_set()) by {
            assert forall|h: Handle<Face>| rest_a.contains(h) <==> rest_b.contains(h) by {
                if rest_a.contains(h) {
                    let k = choose|k: int| 0 <= k < rest_a.len() && rest_a[k] == h;
                    assert(a[k] == h);
                    assert(spec_ascending(a, k, a.len() - 1));
                    assert(a.contains(h));
                    assert(b.to_set().contains(h));
                    let m = choose|m: int| 0 <= m < b.len() && b[m] == h;
                    assert(m < b.len() - 1);
                    assert(rest_b[m] == h);
                }
                if rest_b.contains(h) {
                    let k = choose|k: int| 0 <= k < rest_b.len() && rest_b[k] == h;
                    assert(b[k] == h);
                    assert(spec_ascending(b, k, b.len() - 1));
                    assert(b.contains(h));
                    assert(a.to_set().contains(h));
                    let m = choose|m: int| 0 <= m < a.len() && a[m] == h;
                    assert(m < a.len() - 1);
                    assert(rest_a[m] == h);
                }
            }
        }
        lemma_set_order_unique(rest_a, rest_b);
        assert(a =~= rest_a.push(top));
        assert(b =~= rest_b.push(top));
    }
}

impl View for Shell {
    type V = Seq<Handle<Face>>;

    /// The faces of the shell, in the order of their ids.
    closed spec fn view(&self) -> Seq<Handle<Face>> {
        self.faces@
    }
}

impl Clone for Shell {
    fn clone(&self) -> (copy: Self)
        ensures
            copy@ == self@,
    {
        proof {
            use_type_invariant(self);
        }
        let mut faces: Vec<Handle<Face>> = Vec::new();
        let mut k: usize = 0;
        while k < self.faces.len()
            invariant
                k <= self.faces@.len(),
                faces@ == self.faces@.subrange(0, k as int),
            decreases self.faces@.len() - k,
        {
            faces.push(self.faces[k]);
            k += 1;
            assert(faces@ =~= self.faces@.subrange(0, k as int));
        }
        assert(self.faces@.subrange(0, k as int) =~= self.faces@);
        Shell { faces }
    }
}

impl Shell {
    #[verifier::type_invariant]
    spec fn is_set(self) -> bool {
        spec_is_set(self.faces@)
    }

    /// The shell of these faces. A face that is given more than once is in
    /// the shell once.
    pub fn new(faces: Vec<Handle<Face>>) -> (s: Shell)
        ensures
            s@.to_set() == faces@.to_set(),
            spec_is_set(s@),
    {
        let mut kept: Vec<Handle<Face>> = Vec::new();
        let mut k: usize = 0;
        assert(kept@.to_set() =~= faces@.subrange(0, 0).to_set());
        while k < faces.len()
            invariant
                k <= faces@.len(),
                spec_is_set(kept@),
                kept@.to_set() == faces@.subrange(0, k as int).to_set(),
            decreases faces@.len() - k,
        {
            let face = faces[k];
            let ghost seen = faces@.subrange(0, k as int);
            let ghost before = kept@;
            let mut at: usize = 0;
            while at < kept.len() && kept[at].id() < face.id()
                invariant
                    at <= kept@.len(),
                    kept@ == before,
                    forall|i: int| 0 <= i < at ==> (#[trigger] kept@[i]).spec_id() < face.spec_id(),
                decreases kept@.len() - at,
            {
                at += 1;
            }
            let known = at < kept.len() && kept[at].same(&face);
            if !known {
                kept.insert(at, face);
                proof {
                    assert forall|i: int, j: int|
                        0 <= i < j < kept@.len() implies #[trigger] spec_ascending(kept@, i, j) by {
                        if j < at {
                            assert(spec_ascending(before, i, j));
                        } else if j == at {
                            assert(kept@[i] == before[i]);
                        } else if i < at {
                            assert(spec_ascending(before, i, j - 1));
                        } else if i == at {
                            assert(kept@[j] == before[j - 1]);
                            Handle::<Face>::lemma_handle_is_id(before[at as int], face);
                            if j - 1 > at {
                                assert(spec_ascending(before, at as int, j - 1));
                            }
                        } else {
                            assert(spec_ascending(before, i - 1, j - 1));
                        }
                    }
                }
            }
            k += 1;
            proof {
                let next = faces@.subrange(0, k as int);
                assert(next =~= seen.push(face));
                assert(kept@.to_set() =~= next.to_set()) by {
                    assert forall|h: Handle<Face>| kept@.contains(h) <==> next.contains(h) by {
                        if kept@.contains(h) {
                            let x = choose|x: int| 0 <= x < kept@.len() && kept@[x] == h;
                            if known {
                                assert(before.to_set().contains(h));
                                assert(seen.contains(h));
                                let y = choose|y: int| 0 <= y < seen.len() && seen[y] == h;
                                assert(next[y] == h);
                            } else if x == at {
                                assert(next[next.len() - 1] == h);
                            } else {
                                let y = if x < at {
                                    x
                                } else {
                                    x - 1
                                };
                                assert(before[y] == h);
                                assert(before.to_set().contains(h));
                                assert(seen.contains(h));
                                let z = choose|z: int| 0 <= z < seen.len() && seen[z] == h;
                                assert(next[z] == h);
                            }
                        }
                        if next.contains(h) {
                            let y = choose|y: int| 0 <= y < next.len() && next[y] == h;
                            if y < seen.len() {
                                assert(seen[y] == h);
                                assert(seen.to_set().contains(h));
                                assert(before.contains(h));
                                let x = choose|x: int| 0 <= x < before.len() && before[x] == h;
                                if known {
                                    assert(kept@[x] == h);
                                } else if x < at {
                                    assert(kept@[x] == h);
                                } else {
                                    assert(kept@[x + 1] == h);
                                }
                            } else {
                                assert(h == face);
                                assert(kept@[at as int] == h);
                            }
                        }
                    }
                }
            }
        }
        assert(faces@.subrange(0, k as int) =~= faces@);
        Shell { faces: kept }
    }

    /// The faces of the shell, in the order of their ids.
    pub fn faces(&self) -> (f: &Vec<Handle<Face>>)
        ensures
            f@ == self@,
            spec_is_set(self@),
    {
        proof {
            use_type_invariant(self);
        }
        &self.faces
    }
}

} // verus!
