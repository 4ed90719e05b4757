use std::rc::Rc;
use vstd::prelude::*;

verus! {

/// A variable name. Two identifiers name the same binding iff their text is equal.
pub struct Id(pub String);

impl View for Id {
    type V = Seq<char>;

    open spec fn view(&self) -> Seq<char> {
        self.0@
    }
}

impl Id {
    pub fn new(s: &str) -> (r: Id)
        ensures
            r@ == s@,
    {
        Id(s.to_string())
    }
}

impl Clone for Id {
    fn clone(&self) -> (r: Id)
        ensures
            r == *self,
    {
        Id(self.0.clone())
    }
}

impl PartialEq for Id {
    fn eq(&self, o: &Id) -> (r: bool)
        ensures
            r == (self@ == o@),
    {
        self.0 == o.0
    }
}

impl vstd::std_specs::cmp::PartialEqSpecImpl for Id {
    open spec fn obeys_eq_spec() -> bool {
        true
    }

    open spec fn eq_spec(&self, o: &Id) -> bool {
        self@ == o@
    }
}

/// Runtime values.
pub enum Value {
    Int(i32),
    String(String),
    Null,
    True,
    False,
    Pair(Rc<Value>, Rc<Value>),
    Closure(Env, Id, Rc<Expr>),
    Prim(Primitive),
}

/// Built-in operations, curried one argument at a time.
pub enum Primitive {
    Add,
    AddArg(i32),
    Sub,
    SubArg(i32),
    Equal,
    EqualArg(i32),
    NullP,
    Cons,
    ConsArg(Rc<Value>),
    Car,
    Cdr,
}

/// Expression trees.
pub enum Expr {
    Int(i32),
    String(String),
    True,
    False,
    Id(Id),
    Lambda { arg: Id, body: Rc<Expr> },
    App { rator: Rc<Expr>, rand: Rc<Expr> },
    Let { lhs: Id, rhs: Rc<Expr>, body: Rc<Expr> },
    Letrec { lhs: Id, arg: Id, rhs: Rc<Expr>, body: Rc<Expr> },
    And(Rc<Expr>, Rc<Expr>),
    Or(Rc<Expr>, Rc<Expr>),
}

/// The rest of a computation, as a chain of pending frames.
pub enum Continuation {
    Halt,
    Rator { env: Env, rand: Rc<Expr>, k: Rc<Continuation> },
    Rand { env: Env, rator: Rc<Value>, k: Rc<Continuation> },
    Let { env: Env, id: Id, body: Rc<Expr>, k: Rc<Continuation> },
    And { env: Env, arg: Rc<Expr>, k: Rc<Continuation> },
    Or { env: Env, arg: Rc<Expr>, k: Rc<Continuation> },
}

/// A persistent environment: a shared pointer to its innermost rib.
pub struct Env(pub Rc<PEnv>);

/// A chain of ribs, innermost first.
pub enum PEnv {
    Empty,
    Rib(Id, Binding, Rc<PEnv>),
}

/// What a rib binds its identifier to.
///
/// A recursive binding keeps no pointer back to its own rib, so no reference cycle
/// is ever formed: a lookup reaches the rib through the chain it walks, and closes
/// the function it builds over that very rib.
pub enum Binding {
    Plain(Rc<Value>),
    Rec { arg: Id, body: Rc<Expr> },
}

impl Clone for Env {
    fn clone(&self) -> (r: Env)
        ensures
            r == *self,
    {
        Env(Rc::clone(&self.0))
    }
}

/// The value that a rib chain gives to `name`: the innermost matching rib decides.
/// A recursive rib gives a closure over the environment that starts at that rib.
pub open spec fn lookup_in(env: PEnv, name: Seq<char>) -> Option<Value>
    decreases env,
{
    match env {
        PEnv::Empty => None,
        PEnv::Rib(rid, b, parent) => {
            if rid@ == name {
                match b {
                    Binding::Plain(v) => Some(*v),
                    Binding::Rec { arg, body } => Some(Value::Closure(Env(Rc::new(env)), arg, body)),
                }
            } else {
                lookup_in(*parent, name)
            }
        },
    }
}

/// `env` with a plain rib binding `x` to `v` on top.
pub open spec fn bind(x: Id, v: Value, env: Env) -> Env {
    Env(Rc::new(PEnv::Rib(x, Binding::Plain(Rc::new(v)), env.0)))
}

/// `env` with a recursive rib binding `f` to the function of `x` with body `body` on top.
pub open spec fn bind_rec(f: Id, x: Id, body: Expr, env: Env) -> Env {
    Env(Rc::new(PEnv::Rib(f, Binding::Rec { arg: x, body: Rc::new(body) }, env.0)))
}

/// `r` holds, behind its pointer, the value `lookup_in` gives.
pub open spec fn found(r: Option<Rc<Value>>, expected: Option<Value>) -> bool {
    match r {
        Some(v) => expected == Some(*v),
        None => expected is None,
    }
}

impl Env {
    /// What `lookup` gives for `name` in this environment.
    pub open spec fn spec_lookup(&self, name: Seq<char>) -> Option<Value> {
        lookup_in(*self.0, name)
    }

    /// The environment with no bindings.
    pub fn empty() -> (r: Env)
        ensures
            *r.0 == PEnv::Empty,
            forall|name: Seq<char>| (#[trigger] r.spec_lookup(name)) is None,
    {
        Env(Rc::new(PEnv::Empty))
    }

    /// The value bound to `id`, or `None` where no rib binds it.
    pub fn lookup(&self, id: &Id) -> (r: Option<Rc<Value>>)
        ensures
            found(r, self.spec_lookup(id@)),
    {
        Env::lookup_private(Rc::clone(&self.0), id)
    }

    /// Walks the chain from the rib that `env` points to; a recursive rib that matches
    /// gives a closure over `env` itself.
    fn lookup_private(env: Rc<PEnv>, id: &Id) -> (r: Option<Rc<Value>>)
        ensures
            found(r, lookup_in(*env, id@)),
        decreases *env,
    {
        let node: &PEnv = &env;
        match node {
            PEnv::Empty => None,
            PEnv::Rib(rib_id, b, parent) => {
                if id == rib_id {
                    match b {
                        Binding::Plain(v) => Some(Rc::clone(v)),
                        Binding::Rec { arg, body } => Some(
                            Rc::new(Value::Closure(Env(Rc::clone(&env)), arg.clone(), Rc::clone(body))),
                        ),
                    }
                } else {
                    Env::lookup_private(Rc::clone(parent), id)
                }
            },
        }
    }

    /// A new environment whose innermost rib binds `id` to `value`.
    pub fn extend(id: Id, value: Rc<Value>, env: &Env) -> (r: Env)
        ensures
            r == bind(id, *value, *env),
    {
        Env(Rc::new(PEnv::Rib(id, Binding::Plain(value), Rc::clone(&env.0))))
    }

    /// A new environment whose innermost rib binds `id` to the recursive function
    /// with parameter `arg` and body `body`.
    pub fn extend_rec(id: Id, arg: Id, body: Rc<Expr>, env: &Env) -> (r: Env)
        ensures
            r == bind_rec(id, arg, *body, *env),
    {
        Env(Rc::new(PEnv::Rib(id, Binding::Rec { arg, body }, Rc::clone(&env.0))))
    }

    /// The environment that binds the built-in operations under their usual names:
    /// `add`, `sub`, `equal?`, `null?`, `cons`, `car` and `cdr`.
    pub fn primitives() -> (r: Env)
        ensures
            r.spec_lookup("add"@) == Some(Value::Prim(Primitive::Add)),
            r.spec_lookup("sub"@) == Some(Value::Prim(Primitive::Sub)),
            r.spec_lookup("equal?"@) == Some(Value::Prim(Primitive::Equal)),
            r.spec_lookup("null?"@) == Some(Value::Prim(Primitive::NullP)),
            r.spec_lookup("cons"@) == Some(Value::Prim(Primitive::Cons)),
            r.spec_lookup("car"@) == Some(Value::Prim(Primitive::Car)),
            r.spec_lookup("cdr"@) == Some(Value::Prim(Primitive::Cdr)),
    {
        let e = Env::empty();
        let e = Env::extend(Id::new("add"), Rc::new(Value::Prim(Primitive::Add)), &e);
        let e = Env::extend(Id::new("sub"), Rc::new(Value::Prim(Primitive::Sub)), &e);
        let e = Env::extend(Id::new("equal?"), Rc::new(Value::Prim(Primitive::Equal)), &e);
        let e = Env::extend(Id::new("null?"), Rc::new(Value::Prim(Primitive::NullP)), &e);
        let e = Env::extend(Id::new("cons"), Rc::new(Value::Prim(Primitive::Cons)), &e);
        let e = Env::extend(Id::new("car"), Rc::new(Value::Prim(Primitive::Car)), &e);
        let e = Env::extend(Id::new("cdr"), Rc::new(Value::Prim(Primitive::Cdr)), &e);
        proof {
            reveal_with_fuel(lookup_in, 8);
            reveal_strlit("add");
            reveal_strlit("sub");
            reveal_strlit("equal?");
            reveal_strlit("null?");
            reveal_strlit("cons");
            reveal_strlit("car");
            reveal_strlit("cdr");
            assert("add"@[0] == 'a' && "sub"@[0] == 's' && "car"@[0] == 'c' && "cdr"@[0] == 'c');
            assert("car"@[1] == 'a' && "cdr"@[1] == 'd');
            assert("equal?"@.len() == 6 && "null?"@.len() == 5 && "cons"@.len() == 4 && "add"@.len() == 3);
            assert("sub"@.len() == 3 && "car"@.len() == 3 && "cdr"@.len() == 3);
        }
        e
    }
}

/// `Env::lookup`, with the environment taken by value.
pub fn lookup(env: Env, id: &Id) -> (r: Option<Rc<Value>>)
    ensures
        found(r, env.spec_lookup(id@)),
{
    env.lookup(id)
}

/// `Env::extend`, with the environment first.
pub fn extend(env: Env, id: Id, value: Rc<Value>) -> (r: Env)
    ensures
        r == bind(id, *value, env),
{
    Env::extend(id, value, &env)
}

/// `Env::extend_rec`, with the environment first.
pub fn extend_rec(env: Env, id: Id, arg: Id, body: Rc<Expr>) -> (r: Env)
    ensures
        r == bind_rec(id, arg, *body, env),
{
    Env::extend_rec(id, arg, body, &env)
}

} // verus!
