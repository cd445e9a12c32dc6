//! The scanner, which splits source text into symbols, and the classifier,
//! which turns each symbol into a token.

use vstd::prelude::*;

use vstd::string::*;

use crate::error::{errors_view, BasmError, ErrorView};
use crate::number::{is_float_literal, is_float_text};
use crate::text::{is_wrapped_in, same_text, wrapped_in};

verus! {

/// A raw fragment of source text with the line where it begins.
#[derive(Debug, Clone, PartialEq, Eq)]
pub struct Symbol {
    pub data: String,
    pub line: u32,
}

/// A symbol in the abstract: its text and the line where it begins.
pub struct SymbolView {
    pub text: Seq<char>,
    pub line: nat,
}

impl View for Symbol {
    type V = SymbolView;

    open spec fn view(&self) -> SymbolView {
        SymbolView { text: self.data@, line: self.line as nat }
    }
}

/// The views of a sequence of symbols.
pub open spec fn symbols_view(v: Seq<Symbol>) -> Seq<SymbolView> {
    v.map_values(|s: Symbol| s@)
}

/// Whether the scanner is inside a delimited literal, and if so which
/// character closes it.
#[derive(Debug, Clone, Copy, PartialEq, Eq, Structural)]
pub enum ScanMode {
    Normal,
    Literal(char),
}

/// The scanner's state in the abstract.
pub struct ScanModel {
    pub mode: ScanMode,
    /// The pending symbol.
    pub buf: Seq<char>,
    /// The line where the pending symbol began.
    pub buf_line: nat,
    /// Whether the previous character inside a literal was an escaping backslash.
    pub escaped: bool,
    /// The current line.
    pub line: nat,
    pub symbols: Seq<SymbolView>,
    pub errors: Seq<ErrorView>,
}

/// Whitespace separates symbols outside literals.
pub open spec fn is_space(c: char) -> bool {
    c == ' ' || c == '\t' || c == '\n' || c == '\r'
}

/// The closing delimiter of the literal that `c` opens, if it opens one.
pub open spec fn closing_of(c: char) -> Option<char> {
    if c == '"' {
        Some('"')
    } else if c == '[' {
        Some(']')
    } else if c == '{' {
        Some('}')
    } else {
        None
    }
}

/// The diagnostic for a literal, closed by `close`, that a newline cut short.
pub open spec fn unclosed_error(close: char, line: nat) -> ErrorView {
    if close == '"' {
        ErrorView::UnclosedStringLiteral(line)
    } else if close == ']' {
        ErrorView::UnclosedTargetHeader(line)
    } else {
        ErrorView::UnclosedMonitorHeader(line)
    }
}

/// One transition of the scanner on character `c`.
pub open spec fn scan_step(m: ScanModel, c: char) -> ScanModel {
    match m.mode {
        ScanMode::Normal => if is_space(c) {
            ScanModel {
                buf: Seq::empty(),
                symbols: if m.buf.len() > 0 {
                    m.symbols.push(SymbolView { text: m.buf, line: m.buf_line })
                } else {
                    m.symbols
                },
                line: if c == '\n' { m.line + 1 } else { m.line },
                ..m
            }
        } else if m.buf.len() == 0 {
            ScanModel {
                mode: match closing_of(c) {
                    Some(close) => ScanMode::Literal(close),
                    None => ScanMode::Normal,
                },
                buf: seq![c],
                buf_line: m.line,
                escaped: false,
                ..m
            }
        } else {
            ScanModel { buf: m.buf.push(c), ..m }
        },
        ScanMode::Literal(close) => if c == '\n' {
            ScanModel {
                mode: ScanMode::Normal,
                buf: Seq::empty(),
                line: m.line + 1,
                errors: m.errors.push(unclosed_error(close, m.line)),
                ..m
            }
        } else if m.escaped {
            ScanModel { buf: m.buf.push(c), escaped: false, ..m }
        } else if c == '\\' {
            ScanModel { escaped: true, ..m }
        } else if c == close {
            ScanModel { mode: ScanMode::Normal, buf: m.buf.push(c), ..m }
        } else {
            ScanModel { buf: m.buf.push(c), ..m }
        },
    }
}

/// The scanner's state after the given characters, from the start of line 1.
pub open spec fn scan_chars(s: Seq<char>) -> ScanModel
    decreases s.len(),
{
    if s.len() == 0 {
        ScanModel {
            mode: ScanMode::Normal,
            buf: Seq::empty(),
            buf_line: 1,
            escaped: false,
            line: 1,
            symbols: Seq::empty(),
            errors: Seq::empty(),
        }
    } else {
        scan_step(scan_chars(s.drop_last()), s.last())
    }
}

/// The scanner's final state on a source: one space is appended so that
/// the last pending symbol is flushed.
pub open spec fn scan_source(source: Seq<char>) -> ScanModel {
    scan_chars(source.push(' '))
}

proof fn lemma_scan_lines(s: Seq<char>)
    ensures
        scan_chars(s).line <= 1 + s.len(),
    decreases s.len(),
{
    if s.len() > 0 {
        lemma_scan_lines(s.drop_last());
    }
}

/// No symbol is empty: runs of whitespace, and whitespace before the first or
/// after the last symbol, never make one.
pub proof fn lemma_symbols_nonempty(source: Seq<char>)
    ensures
        forall|i: int|
            0 <= i < scan_source(source).symbols.len()
                ==> (#[trigger] scan_source(source).symbols[i]).text.len() > 0,
{
    lemma_scan_chars_nonempty(source.push(' '));
}

proof fn lemma_scan_chars_nonempty(s: Seq<char>)
    ensures
        forall|i: int|
            0 <= i < scan_chars(s).symbols.len() ==> (#[trigger] scan_chars(s).symbols[i]).text.len() > 0,
    decreases s.len(),
{
    if s.len() > 0 {
        lemma_scan_chars_nonempty(s.drop_last());
    }
}

/// Whitespace never stands inside a symbol unless the symbol begins as a
/// delimited literal: outside literals, whitespace only separates symbols.
pub proof fn lemma_whitespace_separates(source: Seq<char>)
    ensures
        forall|i: int|
            0 <= i < scan_source(source).symbols.len() ==> literal_or_word(
                #[trigger] scan_source(source).symbols[i].text,
            ),
{
    lemma_scan_chars_words(source.push(' '));
}

/// Begins with a literal's opening delimiter, or holds no whitespace.
pub open spec fn literal_or_word(t: Seq<char>) -> bool {
    (t.len() > 0 && closing_of(t[0]) is Some) || forall|j: int| 0 <= j < t.len() ==> !is_space(#[trigger] t[j])
}

proof fn lemma_scan_chars_words(s: Seq<char>)
    ensures
        forall|i: int|
            0 <= i < scan_chars(s).symbols.len() ==> literal_or_word(#[trigger] scan_chars(s).symbols[i].text),
        literal_or_word(scan_chars(s).buf),
        scan_chars(s).mode is Literal ==> scan_chars(s).buf.len() > 0 && closing_of(scan_chars(s).buf[0]) is Some,
    decreases s.len(),
{
    if s.len() > 0 {
        let m = scan_chars(s.drop_last());
        let c = s.last();
        lemma_scan_chars_words(s.drop_last());
        let n = scan_step(m, c);
        if n.buf.len() > 0 && !(closing_of(n.buf[0]) is Some) {
            if m.buf.len() > 0 {
                assert(n.buf[0] == m.buf[0]);
            }
            assert forall|j: int| 0 <= j < n.buf.len() implies !is_space(#[trigger] n.buf[j]) by {
                if j < m.buf.len() {
                    assert(n.buf[j] == m.buf[j]);
                }
            }
        }
    }
}

/// Scanning depends on the source text alone: equal texts give equal
/// symbols and equal diagnostics.
pub proof fn lemma_scan_deterministic(a: Seq<char>, b: Seq<char>)
    requires
        a == b,
    ensures
        scan_source(a).symbols == scan_source(b).symbols,
        scan_source(a).errors == scan_source(b).errors,
{
}

/// The scanner's working state.
struct Scanner {
    mode: ScanMode,
    buf: String,
    buf_line: u32,
    escaped: bool,
    line: u32,
    symbols: Vec<Symbol>,
    errors: Vec<BasmError>,
}

impl View for Scanner {
    type V = ScanModel;

    closed spec fn view(&self) -> ScanModel {
        ScanModel {
            mode: self.mode,
            buf: self.buf@,
            buf_line: self.buf_line as nat,
            escaped: self.escaped,
            line: self.line as nat,
            symbols: symbols_view(self.symbols@),
            errors: errors_view(self.errors@),
        }
    }
}

impl Scanner {
    fn step(&mut self, c: char)
        requires
            c == '\n' ==> old(self)@.line < u32::MAX,
        ensures
            final(self)@ == scan_step(old(self)@, c),
    {
        match self.mode {
            ScanMode::Normal => {
                if c == ' ' || c == '\t' || c == '\n' || c == '\r' {
                    let mut data = String::new();
                    std::mem::swap(&mut data, &mut self.buf);
                    if !data.as_str().is_empty() {
                        self.symbols.push(Symbol { data, line: self.buf_line });
                    }
                    if c == '\n' {
                        self.line = self.line + 1;
                    }
                } else if self.buf.as_str().is_empty() {
                    self.mode = if c == '"' {
                        ScanMode::Literal('"')
                    } else if c == '[' {
                        ScanMode::Literal(']')
                    } else if c == '{' {
                        ScanMode::Literal('}')
                    } else {
                        ScanMode::Normal
                    };
                    self.buf.push(c);
                    self.buf_line = self.line;
                    self.escaped = false;
                } else {
                    self.buf.push(c);
                }
            },
            ScanMode::Literal(close) => {
                if c == '\n' {
                    let error = if close == '"' {
                        BasmError::UnclosedStringLiteral { line: self.line }
                    } else if close == ']' {
                        BasmError::UnclosedTargetHeader { line: self.line }
                    } else {
                        BasmError::UnclosedMonitorHeader { line: self.line }
                    };
                    self.errors.push(error);
                    self.mode = ScanMode::Normal;
                    self.buf = String::new();
                    self.line = self.line + 1;
                } else if self.escaped {
                    self.buf.push(c);
                    self.escaped = false;
                } else if c == '\\' {
                    self.escaped = true;
                } else {
                    if c == close {
                        self.mode = ScanMode::Normal;
                    }
                    self.buf.push(c);
                }
            },
        }
        proof {
            assert(final(self)@.symbols =~= scan_step(old(self)@, c).symbols);
            assert(final(self)@.buf =~= scan_step(old(self)@, c).buf);
            assert(final(self)@.errors =~= scan_step(old(self)@, c).errors);
        }
    }
}

/// Splits the source into symbols, in source order, with a diagnostic for
/// each literal that a newline cut short; scanning goes on after each one.
pub fn scan(source: &str) -> (r: (Vec<Symbol>, Vec<BasmError>))
    requires
        source@.len() < u32::MAX,
    ensures
        symbols_view(r.0@) == scan_source(source@).symbols,
        errors_view(r.1@) == scan_source(source@).errors,
{
    let mut sc = Scanner {
        mode: ScanMode::Normal,
        buf: String::new(),
        buf_line: 1,
        escaped: false,
        line: 1,
        symbols: Vec::new(),
        errors: Vec::new(),
    };
    proof {
        assert(sc@.symbols =~= scan_chars(Seq::empty()).symbols);
        assert(sc@.buf =~= scan_chars(Seq::empty()).buf);
        assert(sc@.errors =~= scan_chars(Seq::empty()).errors);
        assert(sc@ == scan_chars(source@.subrange(0, 0)));
    }
    for c in it: source.chars()
        invariant
            it.seq() == source@,
            source@.len() < u32::MAX,
            sc@ == scan_chars(source@.subrange(0, it.index() as int)),
    {
        let ghost prefix = source@.subrange(0, it.index() as int);
        proof {
            lemma_scan_lines(prefix);
            assert(source@.subrange(0, it.index() + 1).drop_last() =~= prefix);
        }
        sc.step(c);
    }
    proof {
        assert(source@.subrange(0, source@.len() as int) =~= source@);
        lemma_scan_lines(source@);
        assert(source@.push(' ').drop_last() =~= source@);
    }
    sc.step(' ');
    (sc.symbols, sc.errors)
}

#[derive(Debug, Clone, PartialEq, Eq)]
pub struct Token {
    pub token_type: TokenType,
    pub data: String,
    pub line: u32,
}

/// A token in the abstract.
pub struct TokenView {
    pub token_type: TokenType,
    pub text: Seq<char>,
    pub line: nat,
}

impl View for Token {
    type V = TokenView;

    open spec fn view(&self) -> TokenView {
        TokenView { token_type: self.token_type, text: self.data@, line: self.line as nat }
    }
}

/// The views of a sequence of tokens.
pub open spec fn tokens_view(v: Seq<Token>) -> Seq<TokenView> {
    v.map_values(|t: Token| t@)
}

/// The three kinds of token.
#[derive(Debug, Clone, Copy, PartialEq, Eq, Structural)]
pub enum TokenType {
    Keyword,
    Literal,
    Punctuator,
}

/// The fixed keyword vocabulary.
pub open spec fn is_keyword(t: Seq<char>) -> bool {
    // Metadata
       t == "sem_ver"@
    || t == "vm"@
    || t == "agent"@
    // Targets
    || t == "is_stage"@
    || t == "costume_num"@
    || t == "layer"@
    || t == "volume"@
    // Targets (stage)
    || t == "tempo"@
    || t == "video_state"@
    || t == "video_transparency"@
    || t == "tts_language"@
    // Targets (sprite)
    || t == "visible"@
    || t == "x_pos"@
    || t == "y_pos"@
    || t == "size"@
    || t == "direction"@
    || t == "rotation_style"@
    // Blocks
    || t == "block"@
    || t == "uid"@
    || t == "opcode"@
    || t == "parent"@
    || t == "next"@
    || t == "input"@
    || t == "field"@
    || t == "mutation"@
    || t == "shadow"@
    || t == "top_level"@
    // Type annotations
    || t == "prototype"@
    || t == "block_ptr"@
    || t == "substack"@
    || t == "double"@
    || t == "pos_double"@
    || t == "pos_int"@
    || t == "int"@
    || t == "angle"@
    || t == "color"@
    || t == "string"@
    || t == "broadcast"@
    || t == "variable"@
    || t == "list"@
    // Costumes
    || t == "name"@
    || t == "path"@
    || t == "format"@
    || t == "bitmap_res"@
    || t == "center_x"@
    || t == "center_y"@
    // Sounds
    || t == "rate"@
    || t == "samples"@
    // Variables
    || t == "value"@
    || t == "is_cloud"@
    // Lists
    || t == "item"@
    // Monitors
    || t == "mode"@
    || t == "param"@
    || t == "sprite_name"@
    || t == "width"@
    || t == "height"@
    || t == "slider_min"@
    || t == "slider_max"@
    || t == "is_discrete"@
    // Literals
    || t == "null"@
}

fn is_keyword_text(s: &str) -> (r: bool)
    ensures
        r == is_keyword(s@),
{
        // Metadata
           same_text(s, "sem_ver")
        || same_text(s, "vm")
        || same_text(s, "agent")
        // Targets
        || same_text(s, "is_stage")
        || same_text(s, "costume_num")
        || same_text(s, "layer")
        || same_text(s, "volume")
        // Targets (stage)
        || same_text(s, "tempo")
        || same_text(s, "video_state")
        || same_text(s, "video_transparency")
        || same_text(s, "tts_language")
        // Targets (sprite)
        || same_text(s, "visible")
        || same_text(s, "x_pos")
        || same_text(s, "y_pos")
        || same_text(s, "size")
        || same_text(s, "direction")
        || same_text(s, "rotation_style")
        // Blocks
        || same_text(s, "block")
        || same_text(s, "uid")
        || same_text(s, "opcode")
        || same_text(s, "parent")
        || same_text(s, "next")
        || same_text(s, "input")
        || same_text(s, "field")
        || same_text(s, "mutation")
        || same_text(s, "shadow")
        || same_text(s, "top_level")
        // Type annotations
        || same_text(s, "prototype")
        || same_text(s, "block_ptr")
        || same_text(s, "substack")
        || same_text(s, "double")
        || same_text(s, "pos_double")
        || same_text(s, "pos_int")
        || same_text(s, "int")
        || same_text(s, "angle")
        || same_text(s, "color")
        || same_text(s, "string")
        || same_text(s, "broadcast")
        || same_text(s, "variable")
        || same_text(s, "list")
        // Costumes
        || same_text(s, "name")
        || same_text(s, "path")
        || same_text(s, "format")
        || same_text(s, "bitmap_res")
        || same_text(s, "center_x")
        || same_text(s, "center_y")
        // Sounds
        || same_text(s, "rate")
        || same_text(s, "samples")
        // Variables
        || same_text(s, "value")
        || same_text(s, "is_cloud")
        // Lists
        || same_text(s, "item")
        // Monitors
        || same_text(s, "mode")
        || same_text(s, "param")
        || same_text(s, "sprite_name")
        || same_text(s, "width")
        || same_text(s, "height")
        || same_text(s, "slider_min")
        || same_text(s, "slider_max")
        || same_text(s, "is_discrete")
        // Literals
        || same_text(s, "null")
}

/// The kind of token that a symbol's text makes, if any; the first rule
/// that matches decides.
pub open spec fn classify_type(t: Seq<char>) -> Option<TokenType> {
    if is_keyword(t) {
        Some(TokenType::Keyword)
    } else if wrapped_in(t, '"', '"') || wrapped_in(t, '[', ']') || wrapped_in(t, '{', '}')
        || t == "true"@ || t == "false"@ || t == "null"@ || is_float_text(t) {
        Some(TokenType::Literal)
    } else if t == ";"@ || t == "end"@ || t == "!end"@ {
        Some(TokenType::Punctuator)
    } else {
        None
    }
}

/// The token that a symbol makes, or the diagnostic in its place.
pub open spec fn classify_view(s: SymbolView) -> Result<TokenView, ErrorView> {
    match classify_type(s.text) {
        Some(k) => Ok(TokenView { token_type: k, text: s.text, line: s.line }),
        None => Err(ErrorView::UnknownSymbol(s.line, s.text)),
    }
}

/// Classifies the symbols in order: the tokens of those that classify, and
/// a diagnostic for each of the others.
pub open spec fn lex_symbols(syms: Seq<SymbolView>) -> (Seq<TokenView>, Seq<ErrorView>)
    decreases syms.len(),
{
    if syms.len() == 0 {
        (Seq::empty(), Seq::empty())
    } else {
        let (ts, es) = lex_symbols(syms.drop_last());
        match classify_view(syms.last()) {
            Ok(t) => (ts.push(t), es),
            Err(e) => (ts, es.push(e)),
        }
    }
}

/// The tokens of a source, or the diagnostics of the first stage, scanning
/// or classifying, that reported any.
pub open spec fn lex_source(source: Seq<char>) -> Result<Seq<TokenView>, Seq<ErrorView>> {
    let sc = scan_source(source);
    if sc.errors.len() > 0 {
        Err(sc.errors)
    } else {
        let (ts, es) = lex_symbols(sc.symbols);
        if es.len() > 0 {
            Err(es)
        } else {
            Ok(ts)
        }
    }
}

/// Classifying depends on the symbol alone: equal symbols give equal tokens
/// or equal diagnostics.
pub proof fn lemma_classify_deterministic(a: SymbolView, b: SymbolView)
    requires
        a == b,
    ensures
        classify_view(a) == classify_view(b),
{
}

/// Classifies one symbol: a keyword, a literal or a punctuator with the
/// symbol's text and line, or an unknown-symbol diagnostic.
pub fn lex_symbol(symbol: Symbol) -> (r: Result<Token, BasmError>)
    ensures
        match classify_type(symbol.data@) {
            Some(k) => r == Ok::<Token, BasmError>(
                (Token { token_type: k, data: symbol.data, line: symbol.line }),
            ),
            None => r == Err::<Token, BasmError>(
                (BasmError::UnknownSymbol { line: symbol.line, data: symbol.data }),
            ),
        },
        match r {
            Ok(t) => classify_view(symbol@) == Ok::<TokenView, ErrorView>(t@),
            Err(e) => classify_view(symbol@) == Err::<TokenView, ErrorView>(e@),
        },
{
    let s = symbol.data.as_str();
    let kind = if is_keyword_text(s) {
        TokenType::Keyword
    } else if is_wrapped_in(s, '"', '"') || is_wrapped_in(s, '[', ']') || is_wrapped_in(s, '{', '}')
        || same_text(s, "true") || same_text(s, "false") || same_text(s, "null")
        || is_float_literal(s) {
        TokenType::Literal
    } else if same_text(s, ";") || same_text(s, "end") || same_text(s, "!end") {
        TokenType::Punctuator
    } else {
        return Err(BasmError::UnknownSymbol { line: symbol.line, data: symbol.data });
    };
    Ok(Token { token_type: kind, data: symbol.data, line: symbol.line })
}

/// Scans and classifies a source. Scanning diagnostics, if any, are
/// returned alone; otherwise every symbol is classified and all the
/// unknown-symbol diagnostics, if any, are returned; otherwise the tokens.
pub fn lex(source: &str) -> (r: Result<Vec<Token>, Vec<BasmError>>)
    requires
        source@.len() < u32::MAX,
    ensures
        match lex_source(source@) {
            Ok(ts) => r is Ok && tokens_view(r->Ok_0@) == ts,
            Err(es) => r is Err && errors_view(r->Err_0@) == es,
        },
{
    let (symbols, scan_errors) = scan(source);
    if scan_errors.len() > 0 {
        return Err(scan_errors);
    }
    let ghost syms = symbols_view(symbols@);
    let mut tokens: Vec<Token> = Vec::new();
    let mut errors: Vec<BasmError> = Vec::new();
    let mut i: usize = 0;
    proof {
        assert(tokens_view(tokens@) =~= lex_symbols(syms.subrange(0, 0)).0);
        assert(errors_view(errors@) =~= lex_symbols(syms.subrange(0, 0)).1);
    }
    while i < symbols.len()
        invariant
            i <= symbols@.len(),
            syms == symbols_view(symbols@),
            tokens_view(tokens@) == lex_symbols(syms.subrange(0, i as int)).0,
            errors_view(errors@) == lex_symbols(syms.subrange(0, i as int)).1,
        decreases symbols@.len() - i,
    {
        proof {
            assert(syms.subrange(0, i + 1).drop_last() =~= syms.subrange(0, i as int));
            assert(syms.subrange(0, i + 1).last() == symbols@[i as int]@);
        }
        let symbol = Symbol { data: symbols[i].data.clone(), line: symbols[i].line };
        match lex_symbol(symbol) {
            Ok(token) => {
                tokens.push(token);
                assert(tokens_view(tokens@) =~= lex_symbols(syms.subrange(0, i + 1)).0);
            },
            Err(e) => {
                errors.push(e);
                assert(errors_view(errors@) =~= lex_symbols(syms.subrange(0, i + 1)).1);
            },
        }
        i += 1;
    }
    proof {
        assert(syms.subrange(0, i as int) =~= syms);
    }
    if errors.len() > 0 {
        Err(errors)
    } else {
        Ok(tokens)
    }
}

} // verus!
