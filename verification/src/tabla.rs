//! A table from texts to values, in the order in which the keys came.
use vstd::prelude::*;
use crate::texto::iguales;

verus! {

/// A finite map from text keys to values. Each key occurs once; the keys
/// keep the order in which they were first inserted. (`std`'s `HashMap`
/// would serve at run time, but vstd's specification of it says nothing
/// provable about the contents of a map keyed by `String`.)
pub struct Tabla<V> {
    claves: Vec<String>,
    valores: Vec<V>,
    mapa: Ghost<Map<Seq<char>, V>>,
}

impl<V> View for Tabla<V> {
    type V = Map<Seq<char>, V>;

    closed spec fn view(&self) -> Map<Seq<char>, V> {
        self.mapa@
    }
}

impl<V> Tabla<V> {
    /// The table's invariant: keys and values pair up, no key occurs twice,
    /// and the map is exactly what the pairs say.
    #[verifier::type_invariant]
    spec fn wf(&self) -> bool {
        &&& self.claves@.len() == self.valores@.len()
        &&& forall|i: int, j: int|
            0 <= i < j < self.claves@.len() ==> self.claves@[i]@ != self.claves@[j]@
        &&& forall|i: int|
            0 <= i < self.claves@.len() ==> #[trigger] self.mapa@.contains_key(
                self.claves@[i]@,
            ) && self.mapa@[self.claves@[i]@] == self.valores@[i]
        &&& forall|k: Seq<char>|
            #[trigger] self.mapa@.contains_key(k) ==> exists|i: int|
                0 <= i < self.claves@.len() && self.claves@[i]@ == k
    }

    /// The keys, in order.
    pub closed spec fn orden(&self) -> Seq<Seq<char>> {
        self.claves@.map_values(|c: String| c@)
    }

    /// The values, in the order of their keys.
    pub closed spec fn valores_en_orden(&self) -> Seq<V> {
        self.valores@
    }

    /// What the order of keys and values says of the map.
    proof fn lema_orden(&self)
        requires
            self.wf(),
        ensures
            self.orden().len() == self.valores_en_orden().len(),
            forall|i: int|
                0 <= i < self.orden().len() ==> #[trigger] self@.contains_key(self.orden()[i])
                    && self@[self.orden()[i]] == self.valores_en_orden()[i],
            forall|k: Seq<char>|
                #[trigger] self@.contains_key(k) ==> exists|i: int|
                    0 <= i < self.orden().len() && self.orden()[i] == k,
            forall|i: int, j: int|
                0 <= i < j < self.orden().len() ==> self.orden()[i] != self.orden()[j],
            self@.dom().finite(),
            self@.dom().len() == self.orden().len(),
    {
        assert forall|i: int|
            0 <= i < self.orden().len() implies #[trigger] self@.contains_key(self.orden()[i])
            && self@[self.orden()[i]] == self.valores_en_orden()[i] by {
            assert(self.mapa@.contains_key(self.claves@[i]@));
        }
        assert forall|k: Seq<char>| #[trigger] self@.contains_key(k) implies exists|i: int|
            0 <= i < self.orden().len() && self.orden()[i] == k by {
            let i = choose|i: int| 0 <= i < self.claves@.len() && self.claves@[i]@ == k;
            assert(self.orden()[i] == k);
        }
        let o = self.orden();
        assert(o.no_duplicates());
        assert(self@.dom() =~= o.to_set());
        o.unique_seq_to_set();
    }

    /// An empty table.
    pub fn new() -> (t: Self)
        ensures
            t@ == Map::<Seq<char>, V>::empty(),
            t.orden() == Seq::<Seq<char>>::empty(),
    {
        let t = Tabla { claves: Vec::new(), valores: Vec::new(), mapa: Ghost(Map::empty()) };
        assert(t.orden() =~= Seq::<Seq<char>>::empty());
        t
    }

    /// The number of keys.
    pub fn len(&self) -> (r: usize)
        ensures
            r == self.orden().len(),
            r == self@.dom().len(),
    {
        proof {
            use_type_invariant(self);
            self.lema_orden();
        }
        self.claves.len()
    }

    /// Whether the table has no key.
    pub fn is_empty(&self) -> (r: bool)
        ensures
            r == (self@ == Map::<Seq<char>, V>::empty()),
            r == (self.orden().len() == 0),
    {
        proof {
            use_type_invariant(self);
            self.lema_orden();
            if self.orden().len() > 0 {
                assert(self@.contains_key(self.orden()[0]));
                assert(!Map::<Seq<char>, V>::empty().contains_key(self.orden()[0]));
            } else {
                assert(self@ =~= Map::<Seq<char>, V>::empty());
            }
        }
        self.claves.len() == 0
    }

    /// The key at position `i` of the order.
    pub fn clave(&self, i: usize) -> (r: &String)
        requires
            i < self.orden().len(),
        ensures
            r@ == self.orden()[i as int],
    {
        &self.claves[i]
    }

    /// The value at position `i` of the order.
    pub fn valor(&self, i: usize) -> (r: &V)
        requires
            i < self.orden().len(),
        ensures
            *r == self.valores_en_orden()[i as int],
            *r == self@[self.orden()[i as int]],
    {
        proof {
            use_type_invariant(self);
            self.lema_orden();
            assert(self@.contains_key(self.orden()[i as int]));
        }
        &self.valores[i]
    }

    /// The position of `k` in the order, if it is a key.
    pub fn posicion(&self, k: &str) -> (r: Option<usize>)
        ensures
            match r {
                Some(i) => i < self.orden().len() && self.orden()[i as int] == k@,
                None => !self@.contains_key(k@),
            },
    {
        proof {
            use_type_invariant(self);
        }
        let n = self.claves.len();
        let mut i: usize = 0;
        while i < n
            invariant
                self.wf(),
                n == self.claves@.len(),
                i <= n,
                forall|j: int| 0 <= j < i ==> self.claves@[j]@ != k@,
            decreases n - i,
        {
            if iguales(self.claves[i].as_str(), k) {
                return Some(i);
            }
            i = i + 1;
        }
        None
    }

    /// The value of `k`, if it is a key.
    pub fn obtener(&self, k: &str) -> (r: Option<&V>)
        ensures
            match r {
                Some(v) => self@.contains_key(k@) && *v == self@[k@],
                None => !self@.contains_key(k@),
            },
    {
        proof {
            use_type_invariant(self);
            self.lema_orden();
        }
        match self.posicion(k) {
            Some(i) => {
                assert(self@.contains_key(self.orden()[i as int]));
                Some(&self.valores[i])
            },
            None => None,
        }
    }

    /// Whether `k` is a key.
    pub fn contiene(&self, k: &str) -> (r: bool)
        ensures
            r == self@.contains_key(k@),
    {
        proof {
            use_type_invariant(self);
            self.lema_orden();
        }
        self.posicion(k).is_some()
    }

    /// Sets the value of `k` to `v`. A new key goes at the end of the order;
    /// an existing one keeps its place.
    pub fn insertar(&mut self, k: String, v: V)
        ensures
            final(self)@ == old(self)@.insert(k@, v),
            old(self)@.contains_key(k@) ==> final(self).orden() == old(self).orden(),
            !old(self)@.contains_key(k@) ==> final(self).orden() == old(self).orden().push(k@),
    {
        let pos = self.posicion(k.as_str());
        let mut vieja: Tabla<V> = Tabla::new();
        std::mem::swap(&mut vieja, self);
        proof {
            use_type_invariant(&vieja);
            vieja.lema_orden();
        }
        let ghost viejo = vieja;
        let Tabla { mut claves, mut valores, mapa } = vieja;
        match pos {
            Some(i) => {
                assert(viejo.orden()[i as int] == claves@[i as int]@);
                valores.set(i, v);
                let ghost m = mapa@.insert(k@, v);
                assert(claves@.map_values(|c: String| c@) =~= viejo.orden());
                assert forall|j: int| 0 <= j < claves@.len() implies #[trigger] m.contains_key(
                    claves@[j]@,
                ) && m[claves@[j]@] == valores@[j] by {
                    assert(viejo.mapa@.contains_key(viejo.claves@[j]@));
                    if j != i {
                        assert(claves@[j]@ != claves@[i as int]@);
                    }
                }
                assert forall|k2: Seq<char>| #[trigger] m.contains_key(k2) implies exists|j: int|
                    0 <= j < claves@.len() && claves@[j]@ == k2 by {
                    if k2 != k@ {
                        assert(viejo.mapa@.contains_key(k2));
                    } else {
                        assert(claves@[i as int]@ == k2);
                    }
                }
                *self = Tabla { claves, valores, mapa: Ghost(m) };
            },
            None => {
                let ghost kv = k@;
                claves.push(k);
                valores.push(v);
                let ghost m = mapa@.insert(kv, v);
                assert(claves@.map_values(|c: String| c@) =~= viejo.orden().push(kv));
                assert forall|i: int| 0 <= i < claves@.len() implies #[trigger] m.contains_key(
                    claves@[i]@,
                ) && m[claves@[i]@] == valores@[i] by {
                    if i < viejo.claves@.len() {
                        assert(viejo.mapa@.contains_key(viejo.claves@[i]@));
                    }
                }
                assert forall|k2: Seq<char>| #[trigger] m.contains_key(k2) implies exists|j: int|
                    0 <= j < claves@.len() && claves@[j]@ == k2 by {
                    if k2 != kv {
                        assert(viejo.mapa@.contains_key(k2));
                        let j = choose|j: int|
                            0 <= j < viejo.claves@.len() && viejo.claves@[j]@ == k2;
                        assert(claves@[j]@ == k2);
                    } else {
                        assert(claves@[viejo.claves@.len() as int]@ == k2);
                    }
                }
                *self = Tabla { claves, valores, mapa: Ghost(m) };
            },
        }
    }

    /// Removes `k`, handing back its value if it was a key. The other keys
    /// keep their order.
    #[verifier::spinoff_prover]
    pub fn remover(&mut self, k: &str) -> (r: Option<V>)
        ensures
            final(self)@ == old(self)@.remove(k@),
            match r {
                Some(v) => old(self)@.contains_key(k@) && v == old(self)@[k@],
                None => !old(self)@.contains_key(k@),
            },
    {
        let pos = self.posicion(k);
        match pos {
            Some(i) => {
                let mut vieja: Tabla<V> = Tabla::new();
                std::mem::swap(&mut vieja, self);
                proof {
                    use_type_invariant(&vieja);
                    vieja.lema_orden();
                }
                let ghost viejo = vieja;
                let Tabla { mut claves, mut valores, mapa } = vieja;
                assert(viejo.orden()[i as int] == viejo.claves@[i as int]@);
                assert(viejo.mapa@.contains_key(viejo.claves@[i as int]@));
                let _c = claves.remove(i);
                let v = valores.remove(i);
                let ghost m = mapa@.remove(k@);
                assert forall|a: int| 0 <= a < claves@.len() implies #[trigger] m.contains_key(
                    claves@[a]@,
                ) && m[claves@[a]@] == valores@[a] by {
                    let b = if a < i {
                        a
                    } else {
                        a + 1
                    };
                    assert(claves@[a] == viejo.claves@[b]);
                    assert(viejo.mapa@.contains_key(viejo.claves@[b]@));
                    assert(viejo.claves@[b]@ != viejo.claves@[i as int]@);
                }
                assert forall|k2: Seq<char>| #[trigger] m.contains_key(k2) implies exists|j: int|
                    0 <= j < claves@.len() && claves@[j]@ == k2 by {
                    assert(viejo.mapa@.contains_key(k2));
                    let j = choose|j: int|
                        0 <= j < viejo.claves@.len() && viejo.claves@[j]@ == k2;
                    assert(j != i);
                    if j < i {
                        assert(claves@[j]@ == k2);
                    } else {
                        assert(claves@[j - 1]@ == k2);
                    }
                }
                assert forall|a: int, b: int| 0 <= a < b < claves@.len() implies claves@[a]@
                    != claves@[b]@ by {
                    let a2 = if a < i {
                        a
                    } else {
                        a + 1
                    };
                    let b2 = if b < i {
                        b
                    } else {
                        b + 1
                    };
                    assert(claves@[a] == viejo.claves@[a2]);
                    assert(claves@[b] == viejo.claves@[b2]);
                }
                let ghost nueva = Tabla { claves, valores, mapa: Ghost(m) };
                assert(nueva.wf());
                *self = Tabla { claves, valores, mapa: Ghost(m) };
                Some(v)
            },
            None => {
                proof {
                    use_type_invariant(&*self);
                }
                assert(self@.remove(k@) =~= self@);
                None
            },
        }
    }
}

} // verus!
