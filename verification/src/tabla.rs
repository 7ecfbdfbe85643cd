//! A table from names to values.

use vstd::prelude::*;
use crate::valor::Valor;

verus! {

/// A table from names to values. Its model is a map; writing a name that is
/// there replaces what it held.
#[derive(Debug)]
pub struct Tabla<T> {
    entradas: Vec<(String, T)>,
}

/// The map that a list of entries makes: a later entry of a name hides an
/// earlier one.
pub open spec fn mapa_de<T: View>(s: Seq<(String, T)>) -> Map<Seq<char>, T::V>
    decreases s.len(),
{
    if s.len() == 0 {
        Map::empty()
    } else {
        mapa_de(s.drop_last()).insert(s.last().0@, s.last().1@)
    }
}

/// A name that no entry holds is not in the map.
proof fn lema_ausente<T: View>(s: Seq<(String, T)>, k: Seq<char>)
    requires
        forall|i: int| 0 <= i < s.len() ==> (#[trigger] s[i]).0@ != k,
    ensures
        !mapa_de(s).contains_key(k),
    decreases s.len(),
{
    if s.len() > 0 {
        assert forall|i: int| 0 <= i < s.drop_last().len() implies (#[trigger] s.drop_last()[i]).0@
            != k by {
            assert(s.drop_last()[i] == s[i]);
        }
        lema_ausente(s.drop_last(), k);
    }
}

/// The last entry of a name is what the map holds under it.
proof fn lema_presente<T: View>(s: Seq<(String, T)>, k: Seq<char>, i: int)
    requires
        0 <= i < s.len(),
        s[i].0@ == k,
        forall|j: int| i < j < s.len() ==> (#[trigger] s[j]).0@ != k,
    ensures
        mapa_de(s).contains_key(k),
        mapa_de(s)[k] == s[i].1@,
    decreases s.len(),
{
    if i < s.len() - 1 {
        assert(s.drop_last()[i] == s[i]);
        assert forall|j: int| i < j < s.drop_last().len() implies (#[trigger] s.drop_last()[j]).0@
            != k by {
            assert(s.drop_last()[j] == s[j]);
        }
        lema_presente(s.drop_last(), k, i);
    }
}

/// Replacing the last entry of a name writes the new value into the map.
proof fn lema_reemplazo<T: View>(s: Seq<(String, T)>, i: int, e: (String, T))
    requires
        0 <= i < s.len(),
        s[i].0@ == e.0@,
        forall|j: int| i < j < s.len() ==> (#[trigger] s[j]).0@ != e.0@,
    ensures
        mapa_de(s.update(i, e)) == mapa_de(s).insert(e.0@, e.1@),
    decreases s.len(),
{
    let k = e.0@;
    if i == s.len() - 1 {
        assert(s.update(i, e).drop_last() =~= s.drop_last());
        assert(mapa_de(s.update(i, e)) =~= mapa_de(s).insert(k, e.1@));
    } else {
        assert(s.drop_last()[i] == s[i]);
        assert forall|j: int| i < j < s.drop_last().len() implies (#[trigger] s.drop_last()[j]).0@
            != k by {
            assert(s.drop_last()[j] == s[j]);
        }
        lema_reemplazo(s.drop_last(), i, e);
        assert(s.update(i, e).drop_last() =~= s.drop_last().update(i, e));
        assert(s.update(i, e).last() == s.last());
        assert(s.last().0@ != k);
        assert(mapa_de(s.update(i, e)) =~= mapa_de(s).insert(k, e.1@));
    }
}

impl<T: View> Tabla<T> {
    /// The map that the table is.
    pub closed spec fn mapa(self) -> Map<Seq<char>, T::V> {
        mapa_de(self.entradas@)
    }

    /// An empty table.
    pub fn nueva() -> (t: Self)
        ensures
            t.mapa() == Map::<Seq<char>, T::V>::empty(),
    {
        Tabla { entradas: Vec::new() }
    }

    /// The index of the last entry of `clave`, if it has one.
    fn posicion(&self, clave: &String) -> (r: Option<usize>)
        ensures
            match r {
                Some(i) => i < self.entradas.len() && self.entradas[i as int].0@ == clave@
                    && forall|j: int|
                    i < j < self.entradas.len() ==> (#[trigger] self.entradas[j]).0@ != clave@,
                None => forall|j: int|
                    0 <= j < self.entradas.len() ==> (#[trigger] self.entradas[j]).0@ != clave@,
            },
    {
        let mut i: usize = self.entradas.len();
        while i > 0
            invariant
                i <= self.entradas.len(),
                forall|j: int|
                    i <= j < self.entradas.len() ==> (#[trigger] self.entradas[j]).0@ != clave@,
            decreases i,
        {
            i -= 1;
            if self.entradas[i].0 == *clave {
                return Some(i);
            }
        }
        None
    }

    /// Whether the table holds `clave`.
    pub fn contiene(&self, clave: &String) -> (b: bool)
        ensures
            b == self.mapa().contains_key(clave@),
    {
        match self.posicion(clave) {
            Some(i) => {
                proof {
                    lema_presente(self.entradas@, clave@, i as int);
                }
                true
            },
            None => {
                proof {
                    lema_ausente(self.entradas@, clave@);
                }
                false
            },
        }
    }

    /// What the table holds under `clave`.
    pub fn obtener(&self, clave: &String) -> (r: Option<&T>)
        ensures
            match r {
                Some(v) => self.mapa().contains_key(clave@) && v@ == self.mapa()[clave@],
                None => !self.mapa().contains_key(clave@),
            },
    {
        match self.posicion(clave) {
            Some(i) => {
                proof {
                    lema_presente(self.entradas@, clave@, i as int);
                }
                Some(&self.entradas[i].1)
            },
            None => {
                proof {
                    lema_ausente(self.entradas@, clave@);
                }
                None
            },
        }
    }

    /// Writes `valor` under `clave`, in place of what `clave` held, if anything.
    pub fn insertar(&mut self, clave: String, valor: T)
        ensures
            final(self).mapa() == old(self).mapa().insert(clave@, valor@),
    {
        match self.posicion(&clave) {
            Some(i) => {
                proof {
                    lema_reemplazo(self.entradas@, i as int, (clave, valor));
                }
                self.entradas.set(i, (clave, valor));
            },
            None => {
                proof {
                    assert(self.entradas@.push((clave, valor)).drop_last() =~= self.entradas@);
                }
                self.entradas.push((clave, valor));
            },
        }
    }
}

impl Tabla<Valor> {
    /// A copy of the table.
    pub fn clonar(&self) -> (t: Self)
        ensures
            t.mapa() == self.mapa(),
    {
        let mut entradas: Vec<(String, Valor)> = Vec::new();
        let mut i: usize = 0;
        while i < self.entradas.len()
            invariant
                i <= self.entradas.len(),
                entradas.len() == i,
                mapa_de(entradas@) == mapa_de(self.entradas@.take(i as int)),
            decreases self.entradas.len() - i,
        {
            let clave = self.entradas[i].0.clone();
            let valor = self.entradas[i].1.clone();
            proof {
                assert(entradas@.push((clave, valor)).drop_last() =~= entradas@);
                assert(self.entradas@.take(i + 1).drop_last() =~= self.entradas@.take(i as int));
                assert(self.entradas@.take(i + 1).last() == self.entradas@[i as int]);
            }
            entradas.push((clave, valor));
            i += 1;
        }
        proof {
            assert(self.entradas@.take(i as int) =~= self.entradas@);
        }
        Tabla { entradas }
    }
}

} // verus!
