//! Environments: the variables in reach, frame by frame.

use vstd::prelude::*;
use vstd::string::StringExecFns;
use crate::tabla::Tabla;
use crate::valor::{Valor, ValorV};

verus! {

/// Model of [`Entorno`]: its frames, the outermost first and the current one
/// last, each a map from names to values.
pub struct EntornoV {
    pub marcos: Seq<Map<Seq<char>, ValorV>>,
}

/// The innermost of the frames `m[0..=i]` that binds `n`.
pub open spec fn marco_hasta(m: Seq<Map<Seq<char>, ValorV>>, n: Seq<char>, i: int) -> Option<int>
    decreases i + 1,
{
    if i < 0 || i >= m.len() {
        None
    } else if m[i].contains_key(n) {
        Some(i)
    } else {
        marco_hasta(m, n, i - 1)
    }
}

/// The frame that a search finds binds the name.
pub proof fn lema_marco_hasta(m: Seq<Map<Seq<char>, ValorV>>, n: Seq<char>, i: int)
    ensures
        match marco_hasta(m, n, i) {
            Some(j) => 0 <= j <= i && j < m.len() && m[j].contains_key(n),
            None => true,
        },
    decreases i + 1,
{
    if 0 <= i < m.len() && !m[i].contains_key(n) {
        lema_marco_hasta(m, n, i - 1);
    }
}

impl EntornoV {
    /// One empty frame.
    pub open spec fn nuevo() -> EntornoV {
        EntornoV { marcos: seq![Map::empty()] }
    }

    /// The frames of `padre` with an empty frame inside them.
    pub open spec fn con_padre(padre: EntornoV) -> EntornoV {
        EntornoV { marcos: padre.marcos.push(Map::empty()) }
    }

    /// The innermost frame that binds `n`.
    pub open spec fn marco_de(self, n: Seq<char>) -> Option<int> {
        marco_hasta(self.marcos, n, self.marcos.len() - 1)
    }

    /// Binds `n` to `v` in the current frame.
    pub open spec fn definir(self, n: Seq<char>, v: ValorV) -> EntornoV {
        EntornoV {
            marcos: self.marcos.update(self.marcos.len() - 1, self.marcos.last().insert(n, v)),
        }
    }

    /// What `n` is bound to in the innermost frame that binds it.
    pub open spec fn obtener(self, n: Seq<char>) -> Option<ValorV> {
        match self.marco_de(n) {
            Some(i) => Some(self.marcos[i][n]),
            None => None,
        }
    }

    /// Binds `n` to `v` in the innermost frame that binds `n` already.
    pub open spec fn asignar(self, n: Seq<char>, v: ValorV) -> Option<EntornoV> {
        match self.marco_de(n) {
            Some(i) => Some(EntornoV { marcos: self.marcos.update(i, self.marcos[i].insert(n, v)) }),
            None => None,
        }
    }
}

/// A name that no frame binds, where one was to be assigned.
#[derive(Debug, Clone, Copy, PartialEq, Eq, Structural)]
pub struct NoDefinida;

/// An environment: the current frame, and the frames around it.
#[derive(Debug)]
pub struct Entorno {
    locales: Tabla<Valor>,
    exteriores: Vec<Tabla<Valor>>,
}

impl View for Entorno {
    type V = EntornoV;

    closed spec fn view(&self) -> EntornoV {
        EntornoV {
            marcos: Seq::new(
                (self.exteriores.len() + 1) as nat,
                |i: int|
                    if 0 <= i < self.exteriores.len() {
                        self.exteriores[i].mapa()
                    } else {
                        self.locales.mapa()
                    },
            ),
        }
    }
}

impl Entorno {
    /// An environment of one empty frame.
    pub fn new() -> (e: Self)
        ensures
            e@ == EntornoV::nuevo(),
    {
        let e = Entorno { locales: Tabla::nueva(), exteriores: Vec::new() };
        assert(e@.marcos =~= EntornoV::nuevo().marcos);
        e
    }

    /// An environment whose current frame is empty and lies inside those of `padre`.
    pub fn con_padre(padre: Entorno) -> (e: Self)
        ensures
            e@ == EntornoV::con_padre(padre@),
    {
        let ghost antes = padre@;
        let mut exteriores = padre.exteriores;
        exteriores.push(padre.locales);
        let e = Entorno { locales: Tabla::nueva(), exteriores };
        assert(e@.marcos =~= EntornoV::con_padre(antes).marcos);
        e
    }

    /// Every environment has a current frame.
    pub proof fn lema_tiene_marco(&self)
        ensures
            self@.marcos.len() > 0,
    {
    }

    /// Binds `nombre` to `valor` in the current frame, over what it was bound to there.
    pub fn definir(&mut self, nombre: String, valor: Valor)
        ensures
            final(self)@ == old(self)@.definir(nombre@, valor@),
    {
        self.locales.insertar(nombre, valor);
        assert(self@.marcos =~= old(self)@.definir(nombre@, valor@).marcos);
    }

    /// The index of the innermost frame that binds `nombre`.
    fn marco(&self, nombre: &String) -> (r: Option<usize>)
        ensures
            match self@.marco_de(nombre@) {
                Some(i) => r == Some(i as usize) && 0 <= i <= self.exteriores.len(),
                None => r is None,
            },
    {
        if self.locales.contiene(nombre) {
            return Some(self.exteriores.len());
        }
        let mut i: usize = self.exteriores.len();
        while i > 0
            invariant
                i <= self.exteriores.len(),
                self@.marco_de(nombre@) == marco_hasta(self@.marcos, nombre@, i - 1),
            decreases i,
        {
            i -= 1;
            if self.exteriores[i].contiene(nombre) {
                return Some(i);
            }
        }
        None
    }

    /// What `nombre` is bound to in the innermost frame that binds it.
    pub fn obtener(&self, nombre: &str) -> (r: Option<Valor>)
        ensures
            match self@.obtener(nombre@) {
                Some(v) => r is Some && r.unwrap()@ == v,
                None => r is None,
            },
    {
        let clave = String::from_str(nombre);
        proof {
            lema_marco_hasta(self@.marcos, nombre@, self@.marcos.len() - 1);
        }
        match self.marco(&clave) {
            Some(i) => {
                let hallado = if i < self.exteriores.len() {
                    self.exteriores[i].obtener(&clave)
                } else {
                    self.locales.obtener(&clave)
                };
                match hallado {
                    Some(v) => Some(v.clone()),
                    None => None,
                }
            },
            None => None,
        }
    }

    /// Binds `nombre` to `valor` in the innermost frame that binds `nombre`
    /// already; without such a frame nothing changes.
    pub fn asignar(&mut self, nombre: &str, valor: Valor) -> (r: Result<(), NoDefinida>)
        ensures
            match old(self)@.asignar(nombre@, valor@) {
                Some(e) => r is Ok && final(self)@ == e,
                None => r is Err && final(self)@ == old(self)@,
            },
    {
        let clave = String::from_str(nombre);
        match self.marco(&clave) {
            Some(i) => {
                if i < self.exteriores.len() {
                    self.exteriores[i].insertar(clave, valor);
                } else {
                    self.locales.insertar(clave, valor);
                }
                assert(self@.marcos =~= old(self)@.asignar(nombre@, valor@).unwrap().marcos);
                Ok(())
            },
            None => Err(NoDefinida),
        }
    }

    /// A copy of the environment.
    pub fn clonar(&self) -> (e: Self)
        ensures
            e@ == self@,
    {
        let mut exteriores: Vec<Tabla<Valor>> = Vec::new();
        let mut i: usize = 0;
        while i < self.exteriores.len()
            invariant
                i <= self.exteriores.len(),
                exteriores.len() == i,
                forall|j: int| 0 <= j < i ==> (#[trigger] exteriores[j]).mapa() == self.exteriores[j].mapa(),
            decreases self.exteriores.len() - i,
        {
            exteriores.push(self.exteriores[i].clonar());
            i += 1;
        }
        let e = Entorno { locales: self.locales.clonar(), exteriores };
        assert(e@.marcos =~= self@.marcos);
        e
    }
}

/// A declared name reads back as the value it was declared with.
pub proof fn lema_definir_y_obtener(e: EntornoV, n: Seq<char>, v: ValorV)
    requires
        e.marcos.len() > 0,
    ensures
        e.definir(n, v).obtener(n) == Some(v),
{
}

} // verus!
