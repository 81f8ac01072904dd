use vstd::prelude::*;

verus! {

/// A native operation of the library, callable from programs once bound
/// to a name in an environment.
#[derive(Clone, Copy, Debug, PartialEq, Eq, Hash, Structural)]
pub enum Builtin {
    Add,
    Sub,
    Mult,
    /// Division, which only floats support.
    Div,
    IsEven,
    IsOdd,
    Inc,
    Dec,
    Abs,
    Pow,
    Negate,
    Remainder,
    Max,
    Min,
    Equal,
    Less,
    Greater,
    LessOrEqual,
    GreaterOrEqual,
    Not,
    And,
    Or,
    NumberToString,
    StringToNumber,
    StringToList,
    ListToString,
    StringToSymbol,
    SymbolToString,
    StringToBoolean,
    BooleanToString,
    TimeToString,
    TimeToNumber,
    NumberToFloat,
    Car,
    Cdr,
    Cons,
    Length,
    IsNull,
    MakeList,
    Last,
    Nth,
    Head,
    Tail,
    Reverse,
    Contains,
    Zip,
    Range,
    Concat,
    Split,
    Strip,
    Join,
    IndexOf,
    Substring,
    Replace,
    Upper,
    Lower,
    StartsWith,
    EndsWith,
    Lines,
    Strlen,
    EmptyString,
    MakeRegex,
    RegexMatch,
    RegexReplace,
    RegexSplit,
    MakeTime,
    AddDays,
    AddHours,
    AddMinutes,
    AddSeconds,
    Leaves,
    Depth,
    FormatTree,
    Version,
    Format,
    UrlEncode,
    UrlDecode,
    IsText,
    IsNumber,
    IsSymbol,
    IsList,
    IsAtom,
    IsLambda,
    Parse,
    Tokenize,
    Now,
    RandomNumber,
    RandomBoolean,
    RandomChoice,
    RandomLetter,
    MapItems,
    /// An operation of the embedding program, by number.
    Host(u32),
    FilterItems,
    FoldItems,
}

/// The one value type of the language: source syntax and runtime value alike.
#[derive(Debug, PartialEq, Eq, Hash)]
pub enum Node {
    Symbol(String),
    Number(i64),
    /// A floating-point literal, kept as the text that spelled it.
    Float(String),
    Text(String),
    Bool(bool),
    List(Vec<Node>),
    /// Seconds since the epoch and a UTC offset in seconds.
    Time(i64, i32),
    Function(Builtin),
    /// The source of a regular expression.
    Regex(String),
}

/// The mathematical model of a `Node`.
pub enum Datum {
    Symbol(Seq<char>),
    Number(i64),
    Float(Seq<char>),
    Text(Seq<char>),
    Bool(bool),
    List(Seq<Datum>),
    Time(i64, i32),
    Function(Builtin),
    Regex(Seq<char>),
}

pub open spec fn datum_of(n: Node) -> Datum
    decreases n,
{
    match n {
        Node::Symbol(s) => Datum::Symbol(s@),
        Node::Number(v) => Datum::Number(v),
        Node::Float(s) => Datum::Float(s@),
        Node::Text(s) => Datum::Text(s@),
        Node::Bool(b) => Datum::Bool(b),
        Node::List(items) => Datum::List(
            Seq::new(items.len() as nat, |i: int| if 0 <= i < items.len() { datum_of(items[i]) } else { Datum::Bool(false) }),
        ),
        Node::Time(t, z) => Datum::Time(t, z),
        Node::Function(f) => Datum::Function(f),
        Node::Regex(s) => Datum::Regex(s@),
    }
}

impl View for Node {
    type V = Datum;

    open spec fn view(&self) -> Datum {
        datum_of(*self)
    }
}

impl Node {
    /// A deep copy of this value.
    pub fn duplicate(&self) -> (r: Node)
        ensures
            r@ == self@,
        decreases self,
    {
        match self {
            Node::Symbol(s) => Node::Symbol(s.clone()),
            Node::Number(v) => Node::Number(*v),
            Node::Float(s) => Node::Float(s.clone()),
            Node::Text(s) => Node::Text(s.clone()),
            Node::Bool(b) => Node::Bool(*b),
            Node::List(items) => {
                let r = Node::List(duplicate_all(items));
                proof {
                    lemma_list_view(r->List_0);
                    lemma_list_view(*items);
                }
                r
            },
            Node::Time(t, z) => Node::Time(*t, *z),
            Node::Function(f) => Node::Function(*f),
            Node::Regex(s) => Node::Regex(s.clone()),
        }
    }
}

/// The view of each element of a sequence of nodes.
pub open spec fn views(s: Seq<Node>) -> Seq<Datum> {
    s.map_values(|n: Node| n@)
}

/// A deep copy of each node of a slice.
pub fn duplicate_all(items: &Vec<Node>) -> (r: Vec<Node>)
    ensures
        views(r@) == views(items@),
    decreases items,
{
    let mut out: Vec<Node> = Vec::new();
    let mut i: usize = 0;
    while i < items.len()
        invariant
            i <= items.len(),
            out@.len() == i,
            forall|k: int| 0 <= k < i ==> #[trigger] out@[k]@ == items@[k]@,
        decreases items.len() - i,
    {
        proof { vstd::std_specs::vec::axiom_vec_index_decreases(*items, i as int); }
        out.push(items[i].duplicate());
        i += 1;
    }
    assert(views(out@) =~= views(items@));
    out
}

impl Clone for Node {
    fn clone(&self) -> Node {
        self.duplicate()
    }
}

/// The model of a list node is the list of its elements' models.
pub proof fn lemma_list_view(v: Vec<Node>)
    ensures
        Node::List(v)@ == Datum::List(views(v@)),
{
    let a = Node::List(v)@->List_0;
    assert(a.len() == v.len());
    assert(a =~= views(v@));
}

/// The model of what an operation of the outside world returns: the value,
/// or the error message.
pub open spec fn reply_of(r: Result<Node, String>) -> Result<Datum, Seq<char>> {
    match r {
        Ok(n) => Ok(n@),
        Err(m) => Err(m@),
    }
}

/// A copy of an operation's result.
pub fn copy_result(r: &Result<Node, String>) -> (c: Result<Node, String>)
    ensures
        reply_of(c) == reply_of(*r),
{
    match r {
        Ok(n) => Ok(n.duplicate()),
        Err(m) => Err(m.clone()),
    }
}

/// The model of what a native operation returns: the value, or `None` for an error.
pub open spec fn outcome(r: Result<Node, String>) -> Option<Datum> {
    match r {
        Ok(n) => Some(n@),
        Err(_) => None,
    }
}

/// The empty list, which doubles as the language's nil.
pub open spec fn nil() -> Datum {
    Datum::List(Seq::empty())
}

/// A new empty list node.
pub fn empty_list() -> (r: Node)
    ensures
        r@ == nil(),
{
    let v: Vec<Node> = Vec::new();
    proof {
        lemma_list_view(v);
        assert(views(v@) =~= Seq::empty());
    }
    Node::List(v)
}

/// A list node holding the given elements.
pub fn list_node(v: Vec<Node>) -> (r: Node)
    ensures
        r@ == Datum::List(views(v@)),
{
    proof {
        lemma_list_view(v);
    }
    Node::List(v)
}

/// The message of an error raised on arguments of the wrong shape.
pub fn invalid_arguments(name: &str) -> (r: String)
    ensures
        r@ == "Invalid arguments for "@ + name@,
{
    let mut r = String::from_str("Invalid arguments for ");
    r.append(name);
    r
}

/// Appends a copy of `n` to `out`.
pub fn push_copy(out: &mut Vec<Node>, n: &Node)
    ensures
        final(out)@.len() == old(out)@.len() + 1,
        views(final(out)@) == views(old(out)@).push(n@),
{
    let d = n.duplicate();
    out.push(d);
    assert(views(final(out)@) =~= views(old(out)@).push(n@));
}

/// Appends `n` to `out`.
pub fn push_node(out: &mut Vec<Node>, n: Node)
    ensures
        final(out)@.len() == old(out)@.len() + 1,
        views(final(out)@) == views(old(out)@).push(n@),
{
    out.push(n);
    assert(views(final(out)@) =~= views(old(out)@).push(n@));
}

/// Appends a copy of each node of `src` to `out`.
pub fn extend_copies(out: &mut Vec<Node>, src: &[Node])
    ensures
        views(final(out)@) == views(old(out)@) + views(src@),
{
    let mut i: usize = 0;
    while i < src.len()
        invariant
            i <= src.len(),
            views(out@) == views(old(out)@) + views(src@).subrange(0, i as int),
        decreases src.len() - i,
    {
        push_copy(out, &src[i]);
        i += 1;
        assert(views(out@) =~= views(old(out)@) + views(src@).subrange(0, i as int));
    }
    assert(views(src@).subrange(0, i as int) =~= views(src@));
}

} // verus!
