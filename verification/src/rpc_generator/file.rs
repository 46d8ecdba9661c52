//! Line sinks: the files that the emitter fills, and the values that can be
//! printed to them.

use vstd::prelude::*;
use crate::text::{cat2, cat3, cat4, cat5, cat6, cat7, cat8, cat9, cat10};
use crate::chars::{is_alphanumeric, uppercase, char_is_alphanumeric, char_uppercase};

verus! {

/// What a file holds: its lines so far, and whether it still takes lines.
pub struct Sink {
    pub lines: Seq<Seq<char>>,
    pub open: bool,
}

impl Sink {
    /// The sink after one more line was handed to it.
    pub open spec fn put(self, line: Seq<char>) -> Sink {
        if self.open {
            Sink { lines: self.lines.push(line), open: true }
        } else {
            self
        }
    }

    /// An open sink without lines.
    pub open spec fn fresh() -> Sink {
        Sink { lines: Seq::empty(), open: true }
    }
}

/// A destination of lines.
pub trait File {
    /// The lines taken so far.
    spec fn sink(&self) -> Sink;

    /// The sink that `finish` leaves.
    spec fn closing(&self) -> Sink;

    /// Appends a line, unless the file was finished.
    fn add_line(&mut self, line: String)
        ensures
            final(self).sink() == old(self).sink().put(line@),
    ;

    /// Ends the file.
    fn finish(&mut self)
        ensures
            final(self).sink() == old(self).closing(),
    ;
}

/// A value that prints itself as lines.
pub trait Printable: Sized {
    /// The sink after the value was printed to it.
    spec fn printed(&self, sink: Sink) -> Sink;

    fn print<F: File>(self, file: &mut F)
        ensures
            final(file).sink() == self.printed(old(file).sink()),
    ;
}

impl Printable for &str {
    open spec fn printed(&self, sink: Sink) -> Sink {
        sink.put(self@)
    }

    fn print<F: File>(self, file: &mut F) {
        file.add_line(String::from_str(self));
    }
}

impl Printable for String {
    open spec fn printed(&self, sink: Sink) -> Sink {
        sink.put(self@)
    }

    fn print<F: File>(self, file: &mut F) {
        file.add_line(self);
    }
}

impl<P: Printable> Printable for Option<P> {
    open spec fn printed(&self, sink: Sink) -> Sink {
        match self {
            Some(inner) => inner.printed(sink),
            None => sink,
        }
    }

    fn print<F: File>(self, file: &mut F) {
        match self {
            Some(inner) => inner.print(file),
            None => {},
        }
    }
}

/// Two values printed one after the other.
pub struct ChainPrinter<P1: Printable, P2: Printable>(pub P1, pub P2);

impl<P1: Printable, P2: Printable> Printable for ChainPrinter<P1, P2> {
    open spec fn printed(&self, sink: Sink) -> Sink {
        self.1.printed(self.0.printed(sink))
    }

    fn print<F: File>(self, file: &mut F) {
        self.0.print(file);
        self.1.print(file);
    }
}

/// Whether a function can be called as it is and makes values that print
/// alike, whichever of them it makes.
pub open spec fn makes_one<P: Printable, FC: FnOnce() -> P>(make: FC) -> bool {
    &&& make.requires(())
    &&& forall|p: P, q: P, sink: Sink|
        make.ensures((), p) && make.ensures((), q) ==> #[trigger] p.printed(sink) == #[trigger] q.printed(
            sink,
        )
}

/// A value that is made only when it is printed.
#[verifier::reject_recursive_types(P)]
pub struct FnPrinter<P: Printable, FC: FnOnce() -> P>(FC);

impl<P: Printable, FC: FnOnce() -> P> FnPrinter<P, FC> {
    #[verifier::type_invariant]
    pub closed spec fn wf(&self) -> bool {
        makes_one::<P, FC>(self.0)
    }

    /// The function that makes the value.
    pub closed spec fn maker(&self) -> FC {
        self.0
    }

    /// The printer of what `value` makes: it prints as each value does
    /// that `value` can make.
    pub fn from(value: FC) -> (printer: Self)
        requires
            makes_one::<P, FC>(value),
        ensures
            printer.maker() == value,
            forall|p: P, sink: Sink|
                value.ensures((), p) ==> #[trigger] printer.printed(sink) == #[trigger] p.printed(sink),
    {
        FnPrinter(value)
    }
}

impl<P: Printable, FC: FnOnce() -> P> Printable for FnPrinter<P, FC> {
    open spec fn printed(&self, sink: Sink) -> Sink {
        (choose|p: P| self.maker().ensures((), p)).printed(sink)
    }

    fn print<F: File>(self, file: &mut F) {
        proof {
            use_type_invariant(&self);
        }
        let make = self.0;
        let made = make();
        made.print(file);
    }
}

/// The sink after the first `n` of `items` were printed to it in order.
pub open spec fn printed_all<P: Printable>(items: Seq<P>, n: nat, sink: Sink) -> Sink
    decreases n,
{
    if n == 0 || n > items.len() {
        sink
    } else {
        items[n - 1].printed(printed_all(items, (n - 1) as nat, sink))
    }
}

/// A run of values printed in order.
pub struct IteratorPrinter<P: Printable>(pub Vec<P>);

impl<P: Printable> IteratorPrinter<P> {
    pub fn from(items: Vec<P>) -> (printer: Self)
        ensures
            printer.0 == items,
    {
        IteratorPrinter(items)
    }
}

impl<P: Printable> Printable for IteratorPrinter<P> {
    open spec fn printed(&self, sink: Sink) -> Sink {
        printed_all(self.0@, self.0@.len(), sink)
    }

    fn print<F: File>(self, file: &mut F) {
        let mut items = self.0;
        let ghost all = items@;
        let ghost start = file.sink();
        let mut rest: Vec<P> = Vec::new();
        // Taking the items from the back keeps the loop free of clones.
        while items.len() > 0
            invariant
                items@.len() + rest@.len() == all.len(),
                forall|i: int| 0 <= i < items@.len() ==> items@[i] == all[i],
                forall|i: int| 0 <= i < rest@.len() ==> rest@[i] == all[all.len() - 1 - i],
            decreases items@.len(),
        {
            let item = items.pop().unwrap();
            rest.push(item);
        }
        let mut k: usize = 0;
        let total = rest.len();
        while rest.len() > 0
            invariant
                total == all.len(),
                k + rest@.len() == total,
                forall|i: int| 0 <= i < rest@.len() ==> rest@[i] == all[all.len() - 1 - i],
                file.sink() == printed_all(all, k as nat, start),
            decreases rest@.len(),
        {
            let item = rest.pop().unwrap();
            assert(item == all[k as int]);
            item.print(file);
            k = k + 1;
        }
    }
}

/// A file of plain lines under a path.
pub struct PlainFile {
    pub path: String,
    pub buffer: Vec<String>,
}

/// The characters of each string of a sequence.
pub open spec fn texts(lines: Seq<String>) -> Seq<Seq<char>> {
    Seq::new(lines.len(), |i: int| lines[i]@)
}

impl PlainFile {
    pub fn new(path: String) -> (file: Self)
        ensures
            file.path == path,
            file.buffer@.len() == 0,
            file.sink() == Sink::fresh(),
    {
        let file = PlainFile { path, buffer: Vec::new() };
        assert(texts(file.buffer@) =~= Seq::<Seq<char>>::empty());
        file
    }

    /// The path and the lines of the file, for whoever writes it out.
    pub fn result(self) -> (out: (String, Vec<String>))
        ensures
            out.0 == self.path,
            out.1 == self.buffer,
            texts(out.1@) == self.sink().lines,
    {
        (self.path, self.buffer)
    }
}

impl File for PlainFile {
    open spec fn sink(&self) -> Sink {
        Sink { lines: texts(self.buffer@), open: true }
    }

    open spec fn closing(&self) -> Sink {
        self.sink()
    }

    fn add_line(&mut self, line: String)
        ensures
            final(self).path == old(self).path,
    {
        self.buffer.push(line);
        assert(texts(self.buffer@) =~= texts(old(self).buffer@).push(line@));
    }

    fn finish(&mut self)
        ensures
            *final(self) == *old(self),
    {
    }
}

pub type CFile = PlainFile;

/// What one character of a file name gives to the include guard: its
/// upper-case form if it is alphanumeric, an underscore otherwise.
pub open spec fn guard_char(c: char) -> Seq<char> {
    if is_alphanumeric(c) {
        uppercase(c)
    } else {
        Seq::<char>::empty().push('_')
    }
}

/// The include guard that the first `n` characters of a path give: the
/// guard characters of what follows the last `/` among them.
pub open spec fn guard_upto(path: Seq<char>, n: nat) -> Seq<char>
    decreases n,
{
    if n == 0 || n > path.len() {
        Seq::<char>::empty()
    } else if path[n - 1] == '/' {
        Seq::<char>::empty()
    } else {
        guard_upto(path, (n - 1) as nat) + guard_char(path[n - 1])
    }
}

/// The include guard of a header: its final path component in upper case,
/// with an underscore for each character that is not alphanumeric.
pub open spec fn include_guard(path: Seq<char>) -> Seq<char> {
    guard_upto(path, path.len())
}

/// The first lines of a header with the given guard.
pub open spec fn header_opening(guard: Seq<char>) -> Sink {
    Sink::fresh().put("#ifndef "@ + guard).put("#define "@ + guard).put(""@)
}

/// Computes the include guard of a path.
pub fn guard_name(path: &str) -> (guard: String)
    ensures
        guard@ == include_guard(path@),
{
    let n = path.unicode_len();
    let mut guard = String::new();
    let mut i: usize = 0;
    while i < n
        invariant
            n == path@.len(),
            i <= n,
            guard@ == guard_upto(path@, i as nat),
        decreases n - i,
    {
        let c = path.get_char(i);
        if c == '/' {
            guard = String::new();
        } else if char_is_alphanumeric(c) {
            let upper = char_uppercase(c);
            guard.append(upper.as_str());
        } else {
            guard.append("_");
            proof {
                reveal_strlit("_");
                assert("_"@ =~= Seq::<char>::empty().push('_'));
            }
        }
        i = i + 1;
    }
    guard
}

/// A header file: its lines stand between an include guard and `#endif`.
pub struct HFile {
    pub base: CFile,
    pub finished: bool,
}

impl HFile {
    /// Opens a header under the path, guard written.
    pub fn new(path: String) -> (file: Option<Self>)
        ensures
            file is Some,
            file.unwrap().base.path == path,
            file.unwrap().sink() == header_opening(include_guard(path@)),
    {
        let guard = guard_name(path.as_str());
        let mut base = CFile::new(path);
        base.add_line(cat2("#ifndef ", guard.as_str()));
        base.add_line(cat2("#define ", guard.as_str()));
        base.add_line(String::from_str(""));
        Some(HFile { base, finished: false })
    }

    /// The path and the lines of the file, for whoever writes it out.
    pub fn result(self) -> (out: (String, Vec<String>))
        ensures
            out.0 == self.base.path,
            out.1 == self.base.buffer,
            texts(out.1@) == self.sink().lines,
    {
        self.base.result()
    }
}

impl File for HFile {
    open spec fn sink(&self) -> Sink {
        Sink { lines: self.base.sink().lines, open: !self.finished }
    }

    open spec fn closing(&self) -> Sink {
        if self.finished {
            self.sink()
        } else {
            Sink { lines: self.base.sink().lines.push(""@).push("#endif"@), open: false }
        }
    }

    fn add_line(&mut self, line: String)
        ensures
            final(self).base.path == old(self).base.path,
    {
        if !self.finished {
            self.base.add_line(line);
        }
    }

    fn finish(&mut self)
        ensures
            final(self).base.path == old(self).base.path,
    {
        if !self.finished {
            self.base.add_line(String::from_str(""));
            self.base.add_line(String::from_str("#endif"));
            self.finished = true;
        }
        self.base.finish();
    }
}

/// Appends the line `a`.
pub fn emit<F: File>(file: &mut F, a: &str)
    ensures
        final(file).sink() == old(file).sink().put(a@),
{
    file.add_line(String::from_str(a));
}

/// Appends the line made of `a` and `b`.
pub fn emit2<F: File>(file: &mut F, a: &str, b: &str)
    ensures
        final(file).sink() == old(file).sink().put(a@ + b@),
{
    file.add_line(cat2(a, b));
}

/// Appends the line made of the three pieces.
pub fn emit3<F: File>(file: &mut F, a: &str, b: &str, c: &str)
    ensures
        final(file).sink() == old(file).sink().put(a@ + b@ + c@),
{
    file.add_line(cat3(a, b, c));
}

/// Appends the line made of the four pieces.
pub fn emit4<F: File>(file: &mut F, a: &str, b: &str, c: &str, d: &str)
    ensures
        final(file).sink() == old(file).sink().put(a@ + b@ + c@ + d@),
{
    file.add_line(cat4(a, b, c, d));
}

/// Appends the line made of the five pieces.
pub fn emit5<F: File>(file: &mut F, a: &str, b: &str, c: &str, d: &str, e: &str)
    ensures
        final(file).sink() == old(file).sink().put(a@ + b@ + c@ + d@ + e@),
{
    file.add_line(cat5(a, b, c, d, e));
}

/// Appends the line made of the six pieces.
pub fn emit6<F: File>(file: &mut F, a: &str, b: &str, c: &str, d: &str, e: &str, f: &str)
    ensures
        final(file).sink() == old(file).sink().put(a@ + b@ + c@ + d@ + e@ + f@),
{
    file.add_line(cat6(a, b, c, d, e, f));
}

/// Appends the line made of the seven pieces.
pub fn emit7<F: File>(file: &mut F, a: &str, b: &str, c: &str, d: &str, e: &str, f: &str, g: &str)
    ensures
        final(file).sink() == old(file).sink().put(a@ + b@ + c@ + d@ + e@ + f@ + g@),
{
    file.add_line(cat7(a, b, c, d, e, f, g));
}

/// Appends the line made of the eight pieces.
pub fn emit8<F: File>(
    file: &mut F,
    a: &str,
    b: &str,
    c: &str,
    d: &str,
    e: &str,
    f: &str,
    g: &str,
    h: &str,
)
    ensures
        final(file).sink() == old(file).sink().put(a@ + b@ + c@ + d@ + e@ + f@ + g@ + h@),
{
    file.add_line(cat8(a, b, c, d, e, f, g, h));
}

/// Appends the line made of the nine pieces.
pub fn emit9<F: File>(
    file: &mut F,
    a: &str,
    b: &str,
    c: &str,
    d: &str,
    e: &str,
    f: &str,
    g: &str,
    h: &str,
    i: &str,
)
    ensures
        final(file).sink() == old(file).sink().put(a@ + b@ + c@ + d@ + e@ + f@ + g@ + h@ + i@),
{
    file.add_line(cat9(a, b, c, d, e, f, g, h, i));
}

/// Appends the line made of the ten pieces.
pub fn emit10<F: File>(
    file: &mut F,
    a: &str,
    b: &str,
    c: &str,
    d: &str,
    e: &str,
    f: &str,
    g: &str,
    h: &str,
    i: &str,
    j: &str,
)
    ensures
        final(file).sink() == old(file).sink().put(a@ + b@ + c@ + d@ + e@ + f@ + g@ + h@ + i@ + j@),
{
    file.add_line(cat10(a, b, c, d, e, f, g, h, i, j));
}

/// A path with one more component: behind a `/`, unless the path is empty
/// or ends in one already; a component that starts at the root stands
/// alone.
pub open spec fn joined(base: Seq<char>, name: Seq<char>) -> Seq<char> {
    if name.len() > 0 && name[0] == '/' {
        name
    } else if base.len() == 0 || base.last() == '/' {
        base + name
    } else {
        base + "/"@ + name
    }
}

pub fn join_path(base: &str, name: &str) -> (path: String)
    ensures
        path@ == joined(base@, name@),
{
    let n = base.unicode_len();
    if name.unicode_len() > 0 && name.get_char(0) == '/' {
        String::from_str(name)
    } else if n == 0 {
        cat2(base, name)
    } else if base.get_char(n - 1) == '/' {
        cat2(base, name)
    } else {
        cat3(base, "/", name)
    }
}

/// A written file: its path and its lines.
pub struct Written {
    pub path: Seq<char>,
    pub lines: Seq<Seq<char>>,
}

/// The sink of a header under a path, before its first line of content.
pub open spec fn header_start(path: Seq<char>) -> Sink {
    header_opening(include_guard(path))
}

/// The header under a path whose content leaves the sink `body`.
pub open spec fn header_file(path: Seq<char>, body: Sink) -> Written {
    Written {
        path,
        lines: if body.open {
            body.lines.push(""@).push("#endif"@)
        } else {
            body.lines
        },
    }
}

/// The plain file under a path whose content leaves the sink `body`.
pub open spec fn plain_file(path: Seq<char>, body: Sink) -> Written {
    Written { path, lines: body.lines }
}

/// The files written so far, in the order of their writing.
pub struct Tree {
    pub files: Vec<PlainFile>,
}

impl View for Tree {
    type V = Seq<Written>;

    open spec fn view(&self) -> Seq<Written> {
        Seq::new(
            self.files@.len(),
            |i: int| Written { path: self.files@[i].path@, lines: self.files@[i].sink().lines },
        )
    }
}

impl Tree {
    pub fn new() -> (tree: Self)
        ensures
            tree@ == Seq::<Written>::empty(),
    {
        let tree = Tree { files: Vec::new() };
        assert(tree@ =~= Seq::<Written>::empty());
        tree
    }

    /// Takes a header under a path; the header is finished first.
    pub fn add_header(&mut self, path: String, file: HFile)
        ensures
            final(self)@ == old(self)@.push(header_file(path@, file.sink())),
    {
        let ghost body = file.sink();
        let mut file = file;
        file.finish();
        let written = PlainFile { path, buffer: file.base.buffer };
        self.files.push(written);
        assert(self@ =~= old(self)@.push(header_file(path@, body)));
    }

    /// Takes a plain file under a path.
    pub fn add_plain(&mut self, path: String, file: PlainFile)
        ensures
            final(self)@ == old(self)@.push(plain_file(path@, file.sink())),
    {
        let written = PlainFile { path, buffer: file.buffer };
        self.files.push(written);
        assert(self@ =~= old(self)@.push(plain_file(path@, file.sink())));
    }
}

} // verus!
