//! The runtime environment: variable bindings, function definitions, the
//! values printed so far, and the limits that bound evaluation.
use vstd::prelude::*;
use crate::astnode::{
    clone_nodes, clone_parameters, nodes_view, parameters_view, ASTNode, NodeView,
};
use crate::table::{Replicate, Table};
use crate::value::{Value, ValueView};

verus! {

/// How deep evaluation may nest in a new environment.
pub const DEFAULT_MAX_DEPTH: usize = 500;

/// How many iterations one loop may run in a new environment.
pub const DEFAULT_MAX_ITERATIONS: u64 = 0xffff_ffff_ffff_ffff;

/// A declared function.
#[derive(Debug, PartialEq, Eq)]
pub struct FunctionDefinition {
    pub return_type: String,
    /// Each parameter as a pair of its type and its name.
    pub parameters: Vec<(String, String)>,
    pub body: Vec<ASTNode>,
}

/// The mathematical content of a [`FunctionDefinition`].
pub ghost struct FunctionView {
    pub return_type: Seq<char>,
    pub parameters: Seq<(Seq<char>, Seq<char>)>,
    pub body: Seq<NodeView>,
}

impl View for FunctionDefinition {
    type V = FunctionView;

    open spec fn view(&self) -> FunctionView {
        FunctionView {
            return_type: self.return_type@,
            parameters: parameters_view(self.parameters@),
            body: nodes_view(self.body@),
        }
    }
}

impl Clone for FunctionDefinition {
    fn clone(&self) -> (r: Self)
        ensures
            r@ == self@,
    {
        FunctionDefinition {
            return_type: self.return_type.clone(),
            parameters: clone_parameters(&self.parameters),
            body: clone_nodes(&self.body),
        }
    }
}

impl Replicate for FunctionDefinition {
    fn replicate(&self) -> (r: Self) {
        self.clone()
    }
}

impl Replicate for Value {
    fn replicate(&self) -> (r: Self) {
        self.clone()
    }
}

/// The contents of a sequence of values, value by value.
pub open spec fn values_view(values: Seq<Value>) -> Seq<ValueView> {
    Seq::new(values.len(), |i: int| values[i]@)
}

/// The contents of an optional name.
pub open spec fn name_view(name: Option<String>) -> Option<Seq<char>> {
    match name {
        Some(text) => Some(text@),
        None => None,
    }
}

/// The mathematical content of a [`Context`].
pub ghost struct Env {
    /// The value bound to each variable.
    pub variables: Map<Seq<char>, ValueView>,
    /// The definition of each declared function.
    pub functions: Map<Seq<char>, FunctionView>,
    /// The function whose body is being evaluated, if any.
    pub current_function: Option<Seq<char>>,
    /// The values printed so far, oldest first.
    pub output: Seq<ValueView>,
    /// How deep evaluation may nest.
    pub max_depth: nat,
    /// How many iterations one loop may run.
    pub max_iterations: nat,
}

impl Env {
    /// The environment of a new run under the given limits.
    pub open spec fn fresh(max_depth: nat, max_iterations: nat) -> Env {
        Env {
            variables: Map::empty(),
            functions: Map::empty(),
            current_function: Some(Seq::empty()),
            output: Seq::empty(),
            max_depth,
            max_iterations,
        }
    }

    /// The environment after `name` is set to `value`. `Void` is no value
    /// to store: setting a variable to it changes nothing.
    pub open spec fn bind(self, name: Seq<char>, value: ValueView) -> Env {
        if value is Void {
            self
        } else {
            Env { variables: self.variables.insert(name, value), ..self }
        }
    }

    /// The environment after `name` is declared as `function`.
    pub open spec fn declare(self, name: Seq<char>, function: FunctionView) -> Env {
        Env { functions: self.functions.insert(name, function), ..self }
    }

    /// Whether the function `calculate` is declared with a parameter called
    /// `name`.
    pub open spec fn is_parameter(self, name: Seq<char>) -> bool {
        self.functions.contains_key("calculate"@) && exists|i: int|
            0 <= i < self.functions["calculate"@].parameters.len() && (
            #[trigger] self.functions["calculate"@].parameters[i]).1 == name
    }

    /// The environment after `value` is printed.
    pub open spec fn emit(self, value: ValueView) -> Env {
        Env { output: self.output.push(value), ..self }
    }
}

/// The runtime environment of one program run.
///
/// A call evaluates the function's body in a copy of the caller's
/// environment, so what the body binds or declares is not seen by the
/// caller; what it prints is.
#[derive(Debug)]
pub struct Context {
    pub variables: Table<Value>,
    pub functions: Table<FunctionDefinition>,
    pub current_function: Option<String>,
    /// The values printed so far, oldest first.
    pub output: Vec<Value>,
    /// How deep evaluation may nest before it fails.
    pub max_depth: usize,
    /// How many iterations one loop may run before it fails.
    pub max_iterations: u64,
}

impl View for Context {
    type V = Env;

    open spec fn view(&self) -> Env {
        Env {
            variables: self.variables@,
            functions: self.functions@,
            current_function: name_view(self.current_function),
            output: values_view(self.output@),
            max_depth: self.max_depth as nat,
            max_iterations: self.max_iterations as nat,
        }
    }
}

/// A copy of a sequence of values.
pub fn clone_values(values: &Vec<Value>) -> (r: Vec<Value>)
    ensures
        values_view(r@) == values_view(values@),
{
    let mut copy: Vec<Value> = Vec::new();
    let mut i: usize = 0;
    while i < values.len()
        invariant
            i <= values.len(),
            copy.len() == i,
            forall|j: int| 0 <= j < i ==> (#[trigger] copy[j])@ == values[j]@,
        decreases values.len() - i,
    {
        copy.push(values[i].clone());
        i += 1;
    }
    assert(values_view(copy@) =~= values_view(values@));
    copy
}

impl Clone for Context {
    /// A copy of the whole environment.
    fn clone(&self) -> (r: Self)
        ensures
            r@ == self@,
    {
        Context {
            variables: self.variables.replicate(),
            functions: self.functions.replicate(),
            current_function: match &self.current_function {
                Some(name) => Some(name.clone()),
                None => None,
            },
            output: clone_values(&self.output),
            max_depth: self.max_depth,
            max_iterations: self.max_iterations,
        }
    }
}

impl Context {
    /// The environment of a new run, under the default limits.
    pub fn new() -> (r: Self)
        ensures
            r@ == Env::fresh(DEFAULT_MAX_DEPTH as nat, DEFAULT_MAX_ITERATIONS as nat),
    {
        Context::with_limits(DEFAULT_MAX_DEPTH, DEFAULT_MAX_ITERATIONS)
    }

    /// The environment of a new run in which evaluation may nest
    /// `max_depth` deep and one loop may run `max_iterations` times.
    pub fn with_limits(max_depth: usize, max_iterations: u64) -> (r: Self)
        ensures
            r@ == Env::fresh(max_depth as nat, max_iterations as nat),
    {
        let r = Context {
            variables: Table::new(),
            functions: Table::new(),
            current_function: Some(String::new()),
            output: Vec::new(),
            max_depth,
            max_iterations,
        };
        assert(r@.output =~= Seq::empty());
        assert(r@.current_function->0 =~= Seq::empty());
        r
    }

    /// Records that the body of `function_name` is being evaluated.
    pub fn enter_function(&mut self, function_name: String)
        ensures
            final(self)@ == (Env { current_function: Some(function_name@), ..old(self)@ }),
    {
        self.current_function = Some(function_name);
    }

    /// Records that no function body is being evaluated.
    pub fn exit_function(&mut self)
        ensures
            final(self)@ == (Env { current_function: None, ..old(self)@ }),
    {
        self.current_function = None;
    }

    /// Binds `name` to the integer `value`.
    pub fn add_variable(&mut self, name: &str, value: i32)
        ensures
            final(self)@ == old(self)@.bind(name@, ValueView::Integer(value)),
    {
        self.variables.insert(name.to_owned(), Value::Integer(value));
    }

    /// Sets `name` to `value`, whatever its kind, so that what is read back
    /// is what was stored. `Void` is not stored: the environment stays as
    /// it is.
    pub fn set_variable(&mut self, name: &str, value: Value)
        ensures
            final(self)@ == old(self)@.bind(name@, value@),
    {
        match value {
            Value::Void => {},
            _ => {
                self.variables.insert(name.to_owned(), value);
            },
        }
    }

    /// The value bound to `name`, if any.
    pub fn get_variable(&self, name: &str) -> (r: Option<&Value>)
        ensures
            match r {
                Some(value) => self@.variables.contains_key(name@) && value@
                    == self@.variables[name@],
                None => !self@.variables.contains_key(name@),
            },
    {
        let key: String = name.to_owned();
        self.variables.get(&key)
    }

    /// Rebinds `name` to the integer `value`; binds it if it was not bound.
    pub fn update_variable(&mut self, name: &str, value: i32)
        ensures
            final(self)@ == old(self)@.bind(name@, ValueView::Integer(value)),
    {
        self.variables.insert(name.to_owned(), Value::Integer(value));
    }

    /// Removes the binding of `name`, if there is one.
    pub fn remove_variable(&mut self, name: &str)
        ensures
            final(self)@ == (Env {
                variables: old(self)@.variables.remove(name@),
                ..old(self)@
            }),
    {
        let key: String = name.to_owned();
        self.variables.remove(&key);
    }

    /// Declares `name` as `definition`, in place of an earlier definition.
    pub fn set_function(&mut self, name: String, definition: FunctionDefinition)
        ensures
            final(self)@ == old(self)@.declare(name@, definition@),
    {
        self.functions.insert(name, definition);
    }

    /// The definition of the function `name`, if it was declared.
    pub fn get_function(&self, name: &str) -> (r: Option<&FunctionDefinition>)
        ensures
            match r {
                Some(definition) => self@.functions.contains_key(name@) && definition@
                    == self@.functions[name@],
                None => !self@.functions.contains_key(name@),
            },
    {
        let key: String = name.to_owned();
        self.functions.get(&key)
    }

    /// The value bound to `name`, where `name` is a parameter of the
    /// function `calculate`; nothing where no such function is declared,
    /// where it has no such parameter, or where `name` is not bound.
    pub fn get_parameter(&self, name: &str) -> (r: Option<Value>)
        ensures
            match r {
                Some(value) => self@.is_parameter(name@) && self@.variables.contains_key(name@)
                    && value@ == self@.variables[name@],
                None => !self@.is_parameter(name@) || !self@.variables.contains_key(name@),
            },
    {
        let function: &FunctionDefinition = match self.get_function("calculate") {
            Some(function) => function,
            None => {
                return None;
            },
        };
        let key: String = name.to_owned();
        let mut i: usize = 0;
        while i < function.parameters.len()
            invariant
                i <= function.parameters.len(),
                key@ == name@,
                self@.functions.contains_key("calculate"@),
                function@ == self@.functions["calculate"@],
                forall|j: int| 0 <= j < i ==> (#[trigger] function.parameters[j]).1@ != name@,
            decreases function.parameters.len() - i,
        {
            if function.parameters[i].1 == key {
                assert(function@.parameters[i as int].1 == name@);
                return match self.variables.get(&key) {
                    Some(value) => Some(value.clone()),
                    None => None,
                };
            }
            i += 1;
        }
        assert forall|j: int| 0 <= j < function@.parameters.len() implies (
        #[trigger] function@.parameters[j]).1 != name@ by {
            assert(function.parameters[j].1@ != name@);
        }
        None
    }

    /// Prints `value`: appends it to the output.
    pub fn emit(&mut self, value: Value)
        ensures
            final(self)@ == old(self)@.emit(value@),
    {
        self.output.push(value);
        assert(values_view(self.output@) =~= values_view(old(self).output@).push(value@));
    }
}

} // verus!
