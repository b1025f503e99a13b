//! The text of a translated program, put together from its parts.
//!
//! A translation collects the declarations, function bodies and top-level
//! statements of a program as pieces of text. The generator holds these
//! pieces, converts the names of the source to names of the target, and
//! assembles the final text.

use vstd::prelude::*;
use vstd::string::*;
use crate::pool::find_str;
use crate::pool::lemma_position;
use crate::pool::position;
use crate::pool::texts;
use crate::scope::opt_text;
use crate::text::str_eq;

verus! {

/// The text that stands for one character of a name: the characters that
/// the target does not accept in a name are spelled out.
pub open spec fn convert_char(c: char) -> Seq<char> {
    if c == '-' {
        "_"@
    } else if c == '+' {
        "plus_"@
    } else if c == '*' {
        "times_"@
    } else if c == '/' {
        "divide_"@
    } else {
        seq![c]
    }
}

/// A name of the source as a name of the target.
pub open spec fn converted(name: Seq<char>) -> Seq<char>
    decreases name.len(),
{
    if name.len() == 0 {
        Seq::empty()
    } else {
        converted(name.drop_last()) + convert_char(name.last())
    }
}

/// The keys of a list of pairs.
pub open spec fn keys(m: Seq<(Seq<char>, Seq<char>)>) -> Seq<Seq<char>> {
    m.map_values(|p: (Seq<char>, Seq<char>)| p.0)
}

/// The value that a list of pairs holds for `key`.
pub open spec fn lookup(m: Seq<(Seq<char>, Seq<char>)>, key: Seq<char>) -> Option<Seq<char>> {
    match position(keys(m), key) {
        Some(i) => Some(m[i as int].1),
        None => None,
    }
}

/// A list of pairs with `value` put in for `key`: in place of the old value
/// where the key is there, else at the end.
pub open spec fn put(m: Seq<(Seq<char>, Seq<char>)>, key: Seq<char>, value: Seq<char>) -> Seq<
    (Seq<char>, Seq<char>),
> {
    match position(keys(m), key) {
        Some(i) => m.update(i as int, (key, value)),
        None => m.push((key, value)),
    }
}

/// The character sequences of a vector of pairs of strings.
pub open spec fn pairs(v: Seq<(String, String)>) -> Seq<(Seq<char>, Seq<char>)> {
    v.map_values(|p: (String, String)| (p.0@, p.1@))
}

/// The pieces of a translation.
pub struct Generator {
    /// How deep in nested functions the translation is.
    pub depth: isize,
    /// The names of the functions of the program, each once.
    pub functions_names: Vec<String>,
    /// The names of the functions that some class defines, each once.
    pub class_functions_names: Vec<String>,
    /// The directories of the files being translated, innermost last.
    pub paths: Vec<String>,
    /// The declarations of classes and variables.
    pub headers: Vec<String>,
    /// The definitions of functions.
    pub functions: Vec<String>,
    /// The top-level statements of the files being translated, innermost last.
    pub main: Vec<String>,
    /// Whether the translation is inside an expression.
    pub inside_expression: isize,
    pub current_class: Option<String>,
    pub current_method: Option<String>,
    pub current_method_args: Vec<String>,
    /// The parent of each class.
    pub classes: Vec<(String, String)>,
    /// For each converted name, the name that it was converted from.
    pub converted_names: Vec<(String, String)>,
}

/// What a generator holds, apart from how it is stored.
pub struct Pieces {
    pub depth: isize,
    pub functions_names: Seq<Seq<char>>,
    pub class_functions_names: Seq<Seq<char>>,
    pub paths: Seq<Seq<char>>,
    pub headers: Seq<Seq<char>>,
    pub functions: Seq<Seq<char>>,
    pub main: Seq<Seq<char>>,
    pub inside_expression: isize,
    pub current_class: Option<Seq<char>>,
    pub current_method: Option<Seq<char>>,
    pub current_method_args: Seq<Seq<char>>,
    pub classes: Seq<(Seq<char>, Seq<char>)>,
    pub converted_names: Seq<(Seq<char>, Seq<char>)>,
}

impl View for Generator {
    type V = Pieces;

    open spec fn view(&self) -> Pieces {
        Pieces {
            depth: self.depth,
            functions_names: texts(self.functions_names@),
            class_functions_names: texts(self.class_functions_names@),
            paths: texts(self.paths@),
            headers: texts(self.headers@),
            functions: texts(self.functions@),
            main: texts(self.main@),
            inside_expression: self.inside_expression,
            current_class: opt_text(self.current_class),
            current_method: opt_text(self.current_method),
            current_method_args: texts(self.current_method_args@),
            classes: pairs(self.classes@),
            converted_names: pairs(self.converted_names@),
        }
    }
}

/// The texts of `parts`, one after the other, each followed by `end`.
pub open spec fn joined(parts: Seq<Seq<char>>, end: Seq<char>) -> Seq<char>
    decreases parts.len(),
{
    if parts.len() == 0 {
        Seq::empty()
    } else {
        joined(parts.drop_last(), end) + parts.last() + end
    }
}

/// The head of every program: the base class of all classes, up to its
/// virtual functions.
pub open spec fn base_class_head() -> Seq<char> {
    "#include \"simplelisp.h\"\n\n"@
        + "class SimpleListObject : public std::enable_shared_from_this<SimpleListObject> {\n"@
        + "public:\n"@ + "    virtual ~SimpleListObject() = default;\n"@
        + "    virtual const char* name() const = 0;\n"@
}

/// The virtual function that the base class declares for the class function
/// `name`: it reports, under the name of the source, that the class of the
/// receiver does not implement it.
pub open spec fn virtual_function(name: Seq<char>, names: Seq<(Seq<char>, Seq<char>)>) -> Seq<
    char,
> {
    let source = match lookup(names, name) {
        Some(n) => n,
        None => name,
    };
    "    virtual Value func_"@ + name
        + "(std::vector<Value> args1) { throw std::string(\"class '\") + name() + \"' does not implement '"@
        + source + "'\"; }\n"@
}

/// The virtual functions of the first `n` class functions.
pub open spec fn virtual_functions(p: Pieces, n: nat) -> Seq<char>
    decreases n,
{
    if n == 0 || n > p.class_functions_names.len() {
        Seq::empty()
    } else {
        virtual_functions(p, (n - 1) as nat) + virtual_function(
            p.class_functions_names[n - 1],
            p.converted_names,
        )
    }
}

/// The declaration of the function `name`.
pub open spec fn declaration(name: Seq<char>) -> Seq<char> {
    "Value func_"@ + name + "(std::vector<Value> args1);\n"@
}

/// The declarations of the first `n` of `names`.
pub open spec fn declarations(names: Seq<Seq<char>>, n: nat) -> Seq<char>
    decreases n,
{
    if n == 0 || n > names.len() {
        Seq::empty()
    } else {
        declarations(names, (n - 1) as nat) + declaration(names[n - 1])
    }
}

/// The free function that stands in for the class function `name`: it
/// passes the call on to the instance that is its first argument.
pub open spec fn dispatcher(name: Seq<char>) -> Seq<char> {
    "Value func_"@ + name + "(std::vector<Value> args1) {\n"@ + "if (args1[0].is_instance()) {\n"@
        + "auto obj = args1[0].as_instance();\n"@
        + "auto new_args = std::vector<Value> { args1.begin() + 1, args1.end() };\n"@
        + "return obj->func_"@ + name + "(new_args);\n"@ + "}\n\n"@ + "std::cerr << \"function '"@
        + name + "' exists only as a class function.\";\n"@ + "std::exit(1);\n"@ + "}\n"@
}

/// Whether the class function `name` is no function of the program.
pub open spec fn class_only(p: Pieces, name: Seq<char>) -> bool {
    position(p.functions_names, name) is None
}

/// The declarations of the first `n` class functions that are no functions
/// of the program.
pub open spec fn class_declarations(p: Pieces, n: nat) -> Seq<char>
    decreases n,
{
    if n == 0 || n > p.class_functions_names.len() {
        Seq::empty()
    } else {
        class_declarations(p, (n - 1) as nat) + (if class_only(p, p.class_functions_names[n - 1]) {
            declaration(p.class_functions_names[n - 1])
        } else {
            Seq::empty()
        })
    }
}

/// The dispatchers of the first `n` class functions that are no functions
/// of the program.
pub open spec fn dispatchers(p: Pieces, n: nat) -> Seq<char>
    decreases n,
{
    if n == 0 || n > p.class_functions_names.len() {
        Seq::empty()
    } else {
        dispatchers(p, (n - 1) as nat) + (if class_only(p, p.class_functions_names[n - 1]) {
            dispatcher(p.class_functions_names[n - 1])
        } else {
            Seq::empty()
        })
    }
}

/// The entry point: the statements of the outermost file still open.
pub open spec fn entry_point(p: Pieces) -> Seq<char> {
    "int main() {\n"@ + p.main.last() + "return 0;\n"@ + "}\n"@
}

/// The text of the translated program: the base class with one virtual
/// function per class function; the declarations of all functions, those of
/// the program first, each once; the headers; the function definitions; a
/// dispatcher for each class function that is no function of the program;
/// and the entry point.
pub open spec fn program_text(p: Pieces) -> Seq<char> {
    base_class_head() + virtual_functions(p, p.class_functions_names.len()) + "};\n\n"@
        + "#include \"simplelisp-api.h\"\n\n"@ + declarations(
        p.functions_names,
        p.functions_names.len(),
    ) + class_declarations(p, p.class_functions_names.len()) + "\n"@ + joined(
        p.headers,
        Seq::empty(),
    ) + "\n"@ + joined(p.functions, "\n"@) + dispatchers(p, p.class_functions_names.len())
        + entry_point(p)
}

/// The first pair of `m` whose key is `key`.
pub fn find_key(m: &Vec<(String, String)>, key: &str) -> (r: Option<usize>)
    ensures
        match r {
            Some(i) => position(keys(pairs(m@)), key@) == Some(i as nat) && i < m@.len(),
            None => position(keys(pairs(m@)), key@) is None,
        },
{
    let ghost names = keys(pairs(m@));
    let mut i: usize = 0;
    while i < m.len()
        invariant
            i <= m.len(),
            names == keys(pairs(m@)),
            forall|k: int| 0 <= k < i ==> names[k] != key@,
        decreases m.len() - i,
    {
        assert(names[i as int] == m@[i as int].0@);
        if str_eq(m[i].0.as_str(), key) {
            proof {
                lemma_position(names, key@);
            }
            return Some(i);
        }
        i += 1;
    }
    proof {
        lemma_position(names, key@);
    }
    None
}

/// Adds `name` to a list of names unless it is there.
pub fn insert_name(names: &mut Vec<String>, name: &str)
    ensures
        texts(final(names)@) == (if position(texts(old(names)@), name@) is Some {
            texts(old(names)@)
        } else {
            texts(old(names)@).push(name@)
        }),
{
    if find_str(names, name).is_none() {
        let ghost before = texts(names@);
        names.push(String::from_str(name));
        assert(texts(names@) =~= before.push(name@));
    }
}

/// Builds [`converted`].
pub fn convert(name: &str) -> (r: String)
    ensures
        r@ == converted(name@),
{
    let n = name.unicode_len();
    let mut out = String::new();
    let mut i: usize = 0;
    assert(name@.take(0) =~= Seq::<char>::empty());
    while i < n
        invariant
            i <= n,
            n == name@.len(),
            out@ == converted(name@.take(i as int)),
        decreases n - i,
    {
        let c = name.get_char(i);
        proof {
            let now = name@.take(i + 1);
            assert(now.drop_last() =~= name@.take(i as int));
            assert(now.last() == c);
            assert(name@.subrange(i as int, i + 1) =~= seq![c]);
        }
        if c == '-' {
            out.append("_");
        } else if c == '+' {
            out.append("plus_");
        } else if c == '*' {
            out.append("times_");
        } else if c == '/' {
            out.append("divide_");
        } else {
            out.append(name.substring_char(i, i + 1));
        }
        i += 1;
    }
    assert(name@.take(i as int) =~= name@);
    out
}

impl Generator {
    /// A generator at the start of a translation: the functions that every
    /// program has are known, and one file is open.
    pub fn new() -> (r: Generator)
        ensures
            r@ == (Pieces {
                depth: 0,
                functions_names: seq!["print"@, "write"@],
                class_functions_names: seq!["read"@],
                paths: Seq::empty(),
                headers: Seq::empty(),
                functions: Seq::empty(),
                main: seq![Seq::<char>::empty()],
                inside_expression: 0,
                current_class: None,
                current_method: None,
                current_method_args: Seq::empty(),
                classes: Seq::empty(),
                converted_names: Seq::empty(),
            }),
    {
        let mut functions_names: Vec<String> = Vec::new();
        functions_names.push(String::from_str("print"));
        functions_names.push(String::from_str("write"));
        let mut class_functions_names: Vec<String> = Vec::new();
        class_functions_names.push(String::from_str("read"));
        let mut main: Vec<String> = Vec::new();
        main.push(String::new());
        let r = Generator {
            depth: 0,
            functions_names,
            class_functions_names,
            paths: Vec::new(),
            headers: Vec::new(),
            functions: Vec::new(),
            main,
            inside_expression: 0,
            current_class: None,
            current_method: None,
            current_method_args: Vec::new(),
            classes: Vec::new(),
            converted_names: Vec::new(),
        };
        assert(r@.functions_names =~= seq!["print"@, "write"@]);
        assert(r@.class_functions_names =~= seq!["read"@]);
        assert(r@.main =~= seq![Seq::<char>::empty()]);
        assert(r@.paths =~= Seq::empty());
        assert(r@.headers =~= Seq::empty());
        assert(r@.functions =~= Seq::empty());
        assert(r@.current_method_args =~= Seq::empty());
        assert(r@.classes =~= Seq::empty());
        assert(r@.converted_names =~= Seq::empty());
        r
    }

    /// Converts a name of the source to a name of the target, and keeps the
    /// name of the source under the converted name.
    pub fn convert_name(&mut self, name: &str) -> (r: String)
        ensures
            r@ == converted(name@),
            final(self)@ == (Pieces {
                converted_names: put(old(self)@.converted_names, converted(name@), name@),
                ..old(self)@
            }),
    {
        let r = convert(name);
        let ghost before = pairs(self.converted_names@);
        match find_key(&self.converted_names, r.as_str()) {
            Some(i) => {
                self.converted_names.set(i, (r.clone(), String::from_str(name)));
                assert(pairs(self.converted_names@) =~= before.update(i as int, (r@, name@)));
            },
            None => {
                self.converted_names.push((r.clone(), String::from_str(name)));
                assert(pairs(self.converted_names@) =~= before.push((r@, name@)));
            },
        }
        r
    }

    /// Appends the virtual functions of the base class.
    fn write_virtuals(&self, out: &mut String)
        ensures
            final(out)@ == old(out)@ + virtual_functions(self@, self@.class_functions_names.len()),
    {
        let names = &self.class_functions_names;
        let mut i: usize = 0;
        while i < names.len()
            invariant
                i <= names.len(),
                names == &self.class_functions_names,
                out@ == old(out)@ + virtual_functions(self@, i as nat),
            decreases names.len() - i,
        {
            let ghost before = out@;
            let name = names[i].as_str();
            assert(self@.class_functions_names[i as int] == name@);
            out.append("    virtual Value func_");
            out.append(name);
            out.append(
                "(std::vector<Value> args1) { throw std::string(\"class '\") + name() + \"' does not implement '",
            );
            match find_key(&self.converted_names, name) {
                Some(k) => {
                    assert(self@.converted_names[k as int].1 == self.converted_names@[k as int].1@);
                    out.append(self.converted_names[k].1.as_str());
                },
                None => {
                    out.append(name);
                },
            }
            out.append("'\"; }\n");
            assert(out@ =~= before + virtual_function(name@, self@.converted_names));
            assert(out@ =~= old(out)@ + virtual_functions(self@, (i + 1) as nat));
            i += 1;
        }
    }

    /// Appends the declarations of all functions.
    fn write_declarations(&self, out: &mut String)
        ensures
            final(out)@ == old(out)@ + declarations(
                self@.functions_names,
                self@.functions_names.len(),
            ) + class_declarations(self@, self@.class_functions_names.len()),
    {
        let names = &self.functions_names;
        let mut i: usize = 0;
        while i < names.len()
            invariant
                i <= names.len(),
                names == &self.functions_names,
                out@ == old(out)@ + declarations(self@.functions_names, i as nat),
            decreases names.len() - i,
        {
            let ghost before = out@;
            assert(self@.functions_names[i as int] == names@[i as int]@);
            out.append("Value func_");
            out.append(names[i].as_str());
            out.append("(std::vector<Value> args1);\n");
            assert(out@ =~= before + declaration(names@[i as int]@));
            assert(out@ =~= old(out)@ + declarations(self@.functions_names, (i + 1) as nat));
            i += 1;
        }
        let ghost head = out@;
        let others = &self.class_functions_names;
        let mut j: usize = 0;
        assert(out@ =~= head + class_declarations(self@, 0));
        while j < others.len()
            invariant
                j <= others.len(),
                others == &self.class_functions_names,
                out@ == head + class_declarations(self@, j as nat),
            decreases others.len() - j,
        {
            let ghost before = out@;
            assert(self@.class_functions_names[j as int] == others@[j as int]@);
            if find_str(&self.functions_names, others[j].as_str()).is_none() {
                out.append("Value func_");
                out.append(others[j].as_str());
                out.append("(std::vector<Value> args1);\n");
                assert(out@ =~= before + declaration(others@[j as int]@));
            }
            assert(out@ =~= head + class_declarations(self@, (j + 1) as nat));
            j += 1;
        }
        assert(out@ =~= old(out)@ + declarations(
            self@.functions_names,
            self@.functions_names.len(),
        ) + class_declarations(self@, self@.class_functions_names.len()));
    }

    /// Appends the dispatchers of the class functions.
    fn write_dispatchers(&self, out: &mut String)
        ensures
            final(out)@ == old(out)@ + dispatchers(self@, self@.class_functions_names.len()),
    {
        let names = &self.class_functions_names;
        let mut i: usize = 0;
        assert(out@ =~= old(out)@ + dispatchers(self@, 0));
        while i < names.len()
            invariant
                i <= names.len(),
                names == &self.class_functions_names,
                out@ == old(out)@ + dispatchers(self@, i as nat),
            decreases names.len() - i,
        {
            let ghost before = out@;
            let name = names[i].as_str();
            assert(self@.class_functions_names[i as int] == name@);
            if find_str(&self.functions_names, name).is_none() {
                out.append("Value func_");
                out.append(name);
                out.append("(std::vector<Value> args1) {\n");
                out.append("if (args1[0].is_instance()) {\n");
                out.append("auto obj = args1[0].as_instance();\n");
                out.append(
                    "auto new_args = std::vector<Value> { args1.begin() + 1, args1.end() };\n",
                );
                out.append("return obj->func_");
                out.append(name);
                out.append("(new_args);\n");
                out.append("}\n\n");
                out.append("std::cerr << \"function '");
                out.append(name);
                out.append("' exists only as a class function.\";\n");
                out.append("std::exit(1);\n");
                out.append("}\n");
                assert(out@ =~= before + dispatcher(name@));
            }
            assert(out@ =~= old(out)@ + dispatchers(self@, (i + 1) as nat));
            i += 1;
        }
    }

    /// The text of the program that the pieces make.
    pub fn assemble(&self) -> (r: String)
        requires
            self@.main.len() > 0,
        ensures
            r@ == program_text(self@),
    {
        let mut out = String::from_str("#include \"simplelisp.h\"\n\n");
        out.append(
            "class SimpleListObject : public std::enable_shared_from_this<SimpleListObject> {\n",
        );
        out.append("public:\n");
        out.append("    virtual ~SimpleListObject() = default;\n");
        out.append("    virtual const char* name() const = 0;\n");
        assert(out@ =~= base_class_head());
        self.write_virtuals(&mut out);
        out.append("};\n\n");
        out.append("#include \"simplelisp-api.h\"\n\n");
        self.write_declarations(&mut out);
        out.append("\n");
        append_all(&mut out, &self.headers, "");
        out.append("\n");
        append_all(&mut out, &self.functions, "\n");
        self.write_dispatchers(&mut out);
        out.append("int main() {\n");
        assert(self@.main.last() == self.main@[self.main@.len() - 1]@);
        out.append(self.main[self.main.len() - 1].as_str());
        out.append("return 0;\n");
        out.append("}\n");
        proof {
            reveal_strlit("");
            assert(""@ =~= Seq::<char>::empty());
            assert(out@ =~= program_text(self@));
        }
        out
    }
}

/// Appends the texts of `parts` to `out`, each followed by `end`.
pub fn append_all(out: &mut String, parts: &Vec<String>, end: &str)
    ensures
        final(out)@ == old(out)@ + joined(texts(parts@), end@),
{
    let ghost all = texts(parts@);
    let mut i: usize = 0;
    assert(out@ =~= old(out)@ + joined(all.take(0), end@));
    while i < parts.len()
        invariant
            i <= parts.len(),
            all == texts(parts@),
            out@ == old(out)@ + joined(all.take(i as int), end@),
        decreases parts.len() - i,
    {
        out.append(parts[i].as_str());
        out.append(end);
        proof {
            let now = all.take(i + 1);
            assert(now.drop_last() =~= all.take(i as int));
            assert(now.last() == parts@[i as int]@);
            assert(out@ =~= old(out)@ + joined(now, end@));
        }
        i += 1;
    }
    assert(all.take(i as int) =~= all);
}

} // verus!
