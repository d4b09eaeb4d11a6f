//! Character-level text operations with their meaning stated over `Seq<char>`.

use vstd::prelude::*;

verus! {

/// `p` occurs at the start of `s`.
pub open spec fn empieza_con(s: Seq<char>, p: Seq<char>) -> bool {
    p.len() <= s.len() && s.subrange(0, p.len() as int) == p
}

/// `k` occurs in `s` starting at position `i`.
pub open spec fn aparece_en(s: Seq<char>, k: Seq<char>, i: int) -> bool {
    0 <= i && i + k.len() <= s.len() && s.subrange(i, i + k.len()) == k
}

/// `k` occurs somewhere in `s` (the empty sequence occurs everywhere).
pub open spec fn contiene(s: Seq<char>, k: Seq<char>) -> bool {
    exists|i: int| aparece_en(s, k, i)
}

/// `s` with every `c` replaced by `r`.
pub open spec fn reemplazar_car(s: Seq<char>, c: char, r: Seq<char>) -> Seq<char>
    decreases s.len(),
{
    if s.len() == 0 {
        Seq::empty()
    } else {
        let cabeza = if s[0] == c { r } else { seq![s[0]] };
        cabeza + reemplazar_car(s.drop_first(), c, r)
    }
}

/// `s` with every non-overlapping occurrence of `pat`, scanned from the left,
/// replaced by `rep` (the meaning of `str::replace` for a non-empty pattern).
pub open spec fn reemplazar(s: Seq<char>, pat: Seq<char>, rep: Seq<char>) -> Seq<char>
    decreases s.len(),
{
    if pat.len() == 0 || s.len() < pat.len() {
        s
    } else if s.subrange(0, pat.len() as int) == pat {
        rep + reemplazar(s.skip(pat.len() as int), pat, rep)
    } else {
        seq![s[0]] + reemplazar(s.drop_first(), pat, rep)
    }
}

/// What `str::to_lowercase` returns for a string.
pub uninterp spec fn minusculas_de(s: Seq<char>) -> Seq<char>;

/// What `str::to_uppercase` returns for a string.
pub uninterp spec fn mayusculas_de(s: Seq<char>) -> Seq<char>;

/// What `char::is_alphanumeric` returns for a character beyond ASCII.
pub uninterp spec fn alfanumerico_unicode(c: char) -> bool;

/// The characters beyond ASCII that have Unicode's `White_Space` property
/// (as `PropList.txt` lists them): NEXT LINE, NO-BREAK SPACE, OGHAM SPACE
/// MARK, the spaces U+2000 to U+200A, LINE and PARAGRAPH SEPARATOR, NARROW
/// NO-BREAK SPACE, MEDIUM MATHEMATICAL SPACE and IDEOGRAPHIC SPACE.
pub open spec fn espacio_unicode(c: char) -> bool {
    let n = c as u32;
    ||| n == 0x85
    ||| n == 0xA0
    ||| n == 0x1680
    ||| (0x2000 <= n && n <= 0x200A)
    ||| n == 0x2028
    ||| n == 0x2029
    ||| n == 0x202F
    ||| n == 0x205F
    ||| n == 0x3000
}

/// An ASCII letter or digit.
pub open spec fn alfanumerico_ascii(c: char) -> bool {
    ('a' <= c && c <= 'z') || ('A' <= c && c <= 'Z') || ('0' <= c && c <= '9')
}

/// `char::is_alphanumeric`: the ASCII letters and digits, and beyond ASCII
/// what Unicode's tables say.
pub open spec fn es_alfanumerico(c: char) -> bool {
    if (c as u32) < 128 {
        alfanumerico_ascii(c)
    } else {
        alfanumerico_unicode(c)
    }
}

/// `char::is_whitespace`: among ASCII space, tab, line feed, vertical tab,
/// form feed and carriage return, and beyond ASCII what Unicode's tables say.
pub open spec fn es_espacio(c: char) -> bool {
    if (c as u32) < 128 {
        c == ' ' || ('\t' <= c && c <= '\r')
    } else {
        espacio_unicode(c)
    }
}

/// Calls `str::to_lowercase`: the Unicode lowercase mapping of the whole
/// string. Its result is only named here, as Unicode's tables decide it.
#[verifier::external_body]
pub(crate) fn minusculas(s: &str) -> (r: String)
    ensures
        r@ == minusculas_de(s@),
{
    s.to_lowercase()
}

/// Calls `str::to_uppercase`: the Unicode uppercase mapping of the whole
/// string. Its result is only named here, as Unicode's tables decide it.
#[verifier::external_body]
pub(crate) fn mayusculas(s: &str) -> (r: String)
    ensures
        r@ == mayusculas_de(s@),
{
    s.to_uppercase()
}

/// Calls `char::is_alphanumeric` (Unicode `Alphabetic` or `Numeric`). Its
/// documentation makes the ASCII letters and digits alphanumeric and the other
/// ASCII characters not; beyond ASCII the result is only named.
#[verifier::external_body]
pub(crate) fn alfanumerico(c: char) -> (r: bool)
    ensures
        r == (if (c as u32) < 128 {
            alfanumerico_ascii(c)
        } else {
            alfanumerico_unicode(c)
        }),
        r == es_alfanumerico(c),
{
    c.is_alphanumeric()
}

/// Calls `char::is_whitespace`, which its documentation defines as Unicode's
/// `White_Space` property: among the ASCII characters space, tab, line feed,
/// vertical tab, form feed and carriage return; beyond ASCII the characters
/// that `espacio_unicode` lists.
#[verifier::external_body]
pub(crate) fn espacio(c: char) -> (r: bool)
    ensures
        r == (if (c as u32) < 128 {
            c == ' ' || ('\t' <= c && c <= '\r')
        } else {
            espacio_unicode(c)
        }),
        r == es_espacio(c),
{
    c.is_whitespace()
}

/// Calls `String::from_iter` on the characters, which concatenates them.
#[verifier::external_body]
pub(crate) fn texto_de(v: Vec<char>) -> (r: String)
    ensures
        r@ == v@,
{
    String::from_iter(v)
}

/// The characters of a string, in order.
pub fn chars_de(s: &str) -> (r: Vec<char>)
    ensures
        r@ == s@,
{
    let n = s.unicode_len();
    let mut v: Vec<char> = Vec::new();
    let mut i: usize = 0;
    while i < n
        invariant
            n == s@.len(),
            i <= n,
            v@ == s@.subrange(0, i as int),
        decreases n - i,
    {
        v.push(s.get_char(i));
        i = i + 1;
        assert(v@ =~= s@.subrange(0, i as int));
    }
    assert(v@ =~= s@);
    v
}

/// Whether `k` occurs in `s` at position `i`.
pub fn aparece_en_exec(s: &Vec<char>, k: &Vec<char>, i: usize) -> (r: bool)
    ensures
        r == aparece_en(s@, k@, i as int),
{
    if i > s.len() || k.len() > s.len() - i {
        return false;
    }
    let mut j: usize = 0;
    while j < k.len()
        invariant
            i + k.len() <= s.len(),
            j <= k.len(),
            forall|m: int| 0 <= m < j ==> s@[i + m] == k@[m],
        decreases k.len() - j,
    {
        if s[i + j] != k[j] {
            assert(s@.subrange(i as int, i + k.len())[j as int] != k@[j as int]);
            return false;
        }
        j = j + 1;
    }
    assert(s@.subrange(i as int, i + k.len()) =~= k@);
    true
}

/// Whether `p` occurs at the start of `s`.
pub fn empieza_con_exec(s: &Vec<char>, p: &Vec<char>) -> (r: bool)
    ensures
        r == empieza_con(s@, p@),
{
    aparece_en_exec(s, p, 0)
}

/// Whether `k` occurs anywhere in `s`.
pub fn contiene_exec(s: &Vec<char>, k: &Vec<char>) -> (r: bool)
    ensures
        r == contiene(s@, k@),
{
    if k.len() > s.len() {
        assert forall|i: int| !aparece_en(s@, k@, i) by {}
        return false;
    }
    if k.len() == 0 {
        assert(s@.subrange(0, 0) =~= k@);
        assert(aparece_en(s@, k@, 0));
        return true;
    }
    let mut i: usize = 0;
    while i <= s.len() - k.len()
        invariant
            1 <= k.len() <= s.len(),
            i <= s.len() - k.len() + 1,
            forall|m: int| 0 <= m < i ==> !aparece_en(s@, k@, m),
        decreases s.len() - k.len() + 1 - i,
    {
        if aparece_en_exec(s, k, i) {
            return true;
        }
        i = i + 1;
    }
    assert forall|m: int| !aparece_en(s@, k@, m) by {
        if 0 <= m && m + k.len() <= s.len() {
            assert(m < i);
        }
    }
    false
}

/// Appends `b` to `a`.
pub fn anexar(a: &mut Vec<char>, b: &Vec<char>)
    ensures
        final(a)@ == old(a)@ + b@,
{
    let ghost inicio = a@;
    let mut i: usize = 0;
    while i < b.len()
        invariant
            i <= b.len(),
            a@ == inicio + b@.subrange(0, i as int),
        decreases b.len() - i,
    {
        a.push(b[i]);
        i = i + 1;
        assert(a@ =~= inicio + b@.subrange(0, i as int));
    }
    assert(b@.subrange(0, b.len() as int) =~= b@);
}

/// `s` with every `c` replaced by `r`.
pub fn reemplazar_car_exec(s: &Vec<char>, c: char, r: &Vec<char>) -> (res: Vec<char>)
    ensures
        res@ == reemplazar_car(s@, c, r@),
{
    let mut out: Vec<char> = Vec::new();
    let mut j: usize = 0;
    assert(s@.skip(0) =~= s@);
    assert(out@ + reemplazar_car(s@, c, r@) =~= reemplazar_car(s@, c, r@));
    while j < s.len()
        invariant
            j <= s.len(),
            out@ + reemplazar_car(s@.skip(j as int), c, r@) == reemplazar_car(s@, c, r@),
        decreases s.len() - j,
    {
        assert(s@.skip(j as int).drop_first() =~= s@.skip(j + 1));
        if s[j] == c {
            anexar(&mut out, r);
        } else {
            out.push(s[j]);
        }
        j = j + 1;
        assert(out@ + reemplazar_car(s@.skip(j as int), c, r@) =~= reemplazar_car(s@, c, r@));
    }
    assert(s@.skip(s.len() as int) =~= Seq::<char>::empty());
    assert(out@ =~= out@ + reemplazar_car(s@.skip(j as int), c, r@));
    out
}


/// `s` with every non-overlapping occurrence of the non-empty `pat`, from
/// the left, replaced by `rep`.
pub fn reemplazar_exec(s: &Vec<char>, pat: &Vec<char>, rep: &Vec<char>) -> (res: Vec<char>)
    requires
        pat.len() > 0,
    ensures
        res@ == reemplazar(s@, pat@, rep@),
{
    let mut out: Vec<char> = Vec::new();
    let mut j: usize = 0;
    assert(s@.skip(0) =~= s@);
    assert(out@ + reemplazar(s@, pat@, rep@) =~= reemplazar(s@, pat@, rep@));
    while j < s.len()
        invariant
            j <= s.len(),
            pat.len() > 0,
            out@ + reemplazar(s@.skip(j as int), pat@, rep@) == reemplazar(s@, pat@, rep@),
        decreases s.len() - j,
    {
        let ghost t = s@.skip(j as int);
        let ghost antes = out@;
        if pat.len() <= s.len() - j && aparece_en_exec(s, pat, j) {
            assert(t.subrange(0, pat.len() as int) =~= s@.subrange(j as int, j + pat.len()));
            assert(t.skip(pat.len() as int) =~= s@.skip(j + pat.len()));
            anexar(&mut out, rep);
            j = j + pat.len();
        } else {
            if pat.len() <= s.len() - j {
                assert(t.subrange(0, pat.len() as int) =~= s@.subrange(j as int, j + pat.len()));
            }
            assert(t.drop_first() =~= s@.skip(j + 1));
            assert(t =~= seq![t[0]] + t.drop_first());
            out.push(s[j]);
            j = j + 1;
        }
        assert(out@ + reemplazar(s@.skip(j as int), pat@, rep@) =~= antes + reemplazar(t, pat@, rep@));
    }
    assert(s@.skip(s.len() as int) =~= Seq::<char>::empty());
    assert(out@ =~= out@ + reemplazar(s@.skip(j as int), pat@, rep@));
    out
}

/// Where `pat` begins with a character that `s` lacks, replacing it changes
/// nothing.
pub proof fn lema_reemplazar_ausente(s: Seq<char>, pat: Seq<char>, rep: Seq<char>)
    requires
        pat.len() > 0,
        forall|i: int| 0 <= i < s.len() ==> s[i] != pat[0],
    ensures
        reemplazar(s, pat, rep) == s,
        !contiene(s, pat),
    decreases s.len(),
{
    if s.len() >= pat.len() {
        assert(s.subrange(0, pat.len() as int)[0] != pat[0]);
        lema_reemplazar_ausente(s.drop_first(), pat, rep);
        assert(s =~= seq![s[0]] + s.drop_first());
    }
    assert forall|i: int| !aparece_en(s, pat, i) by {
        if aparece_en(s, pat, i) {
            assert(s.subrange(i, i + pat.len())[0] == s[i]);
        }
    }
}

/// The ASCII digit of a value below ten.
pub open spec fn digito(d: nat) -> char {
    if d == 0 { '0' } else if d == 1 { '1' } else if d == 2 { '2' } else if d == 3 { '3' }
    else if d == 4 { '4' } else if d == 5 { '5' } else if d == 6 { '6' } else if d == 7 { '7' }
    else if d == 8 { '8' } else { '9' }
}

/// The value of an ASCII digit.
pub open spec fn valor_digito(c: char) -> nat {
    ((c as u32) - ('0' as u32)) as nat
}

/// An ASCII digit.
pub open spec fn es_digito(c: char) -> bool {
    '0' <= c && c <= '9'
}

/// The decimal numeral of a natural number, without leading zeros.
pub open spec fn decimal(n: nat) -> Seq<char>
    decreases n,
{
    if n < 10 {
        seq![digito(n)]
    } else {
        decimal(n / 10).push(digito(n % 10))
    }
}

/// The value of a non-empty run of ASCII digits.
pub open spec fn valor_decimal(s: Seq<char>) -> nat
    decreases s.len(),
{
    if s.len() == 0 {
        0
    } else {
        valor_decimal(s.drop_last()) * 10 + valor_digito(s.last())
    }
}

fn digito_exec(d: u64) -> (c: char)
    requires
        d < 10,
    ensures
        c == digito(d as nat),
{
    if d == 0 { '0' } else if d == 1 { '1' } else if d == 2 { '2' } else if d == 3 { '3' }
    else if d == 4 { '4' } else if d == 5 { '5' } else if d == 6 { '6' } else if d == 7 { '7' }
    else if d == 8 { '8' } else { '9' }
}

fn decimal_chars(n: u64) -> (r: Vec<char>)
    ensures
        r@ == decimal(n as nat),
    decreases n,
{
    if n < 10 {
        let mut v: Vec<char> = Vec::new();
        v.push(digito_exec(n));
        assert(v@ =~= decimal(n as nat));
        v
    } else {
        let mut v = decimal_chars(n / 10);
        v.push(digito_exec(n % 10));
        v
    }
}

/// The decimal numeral of `n`, as `u64`'s `to_string` writes it.
pub fn texto_decimal(n: u64) -> (r: String)
    ensures
        r@ == decimal(n as nat),
{
    texto_de(decimal_chars(n))
}

/// The decimal numeral of an integer, with a leading `-` when negative.
pub open spec fn decimal_con_signo(i: int) -> Seq<char> {
    if i < 0 {
        "-"@ + decimal((-i) as nat)
    } else {
        decimal(i as nat)
    }
}

/// The decimal numeral of `i`, as `i64`'s `to_string` writes it.
pub fn texto_entero(i: i64) -> (r: String)
    ensures
        r@ == decimal_con_signo(i as int),
{
    if i < 0 {
        let magnitud: u64 = ((-(i + 1)) as u64) + 1;
        assert(magnitud == -(i as int));
        let mut r = String::from_str("-");
        r.append(texto_decimal(magnitud).as_str());
        r
    } else {
        texto_decimal(i as u64)
    }
}

proof fn lema_digito(d: nat)
    requires
        d < 10,
    ensures
        es_digito(digito(d)),
        valor_digito(digito(d)) == d,
{
}

/// Reading back a numeral gives the number: the numeral is a run of digits
/// whose value is `n`.
pub proof fn ley_decimal_se_lee(n: nat)
    ensures
        decimal(n).len() > 0,
        todos_digitos(decimal(n)),
        valor_decimal(decimal(n)) == n,
    decreases n,
{
    if n < 10 {
        lema_digito(n);
        assert(decimal(n).drop_last() =~= Seq::<char>::empty());
        assert(valor_decimal(decimal(n)) == valor_decimal(Seq::<char>::empty()) * 10 + valor_digito(digito(n)));
    } else {
        ley_decimal_se_lee(n / 10);
        lema_digito(n % 10);
        let d = decimal(n);
        assert(d.drop_last() =~= decimal(n / 10));
        assert(d.last() == digito(n % 10));
        assert(valor_decimal(d) == valor_decimal(decimal(n / 10)) * 10 + valor_digito(digito(n % 10)));
        assert(todos_digitos(d)) by {
            assert forall|i: int| 0 <= i < d.len() implies es_digito(#[trigger] d[i]) by {
                if i < d.len() - 1 {
                    assert(d[i] == decimal(n / 10)[i]);
                }
            }
        }
    }
}

/// Every character is an ASCII digit.
pub open spec fn todos_digitos(s: Seq<char>) -> bool {
    forall|i: int| 0 <= i < s.len() ==> es_digito(#[trigger] s[i])
}

/// `s` without a leading `+`.
pub open spec fn sin_signo(s: Seq<char>) -> Seq<char> {
    if s.len() > 0 && s[0] == '+' { s.drop_first() } else { s }
}

/// What `str::parse::<usize>` accepts: an optional `+` and one or more ASCII
/// digits whose value fits in `usize`; and the value it gives.
pub open spec fn spec_parse_usize(s: Seq<char>) -> Option<usize> {
    let digitos = sin_signo(s);
    if digitos.len() > 0 && todos_digitos(digitos) && valor_decimal(digitos) <= usize::MAX {
        Some(valor_decimal(digitos) as usize)
    } else {
        None
    }
}

/// Reads a `usize` written in decimal, as `str::parse::<usize>` does.
pub fn parse_usize(s: &str) -> (r: Option<usize>)
    ensures
        r == spec_parse_usize(s@),
{
    let cs = chars_de(s);
    let inicio: usize = if cs.len() > 0 && cs[0] == '+' { 1 } else { 0 };
    let ghost digitos = sin_signo(s@);
    assert(digitos =~= cs@.skip(inicio as int));
    if inicio >= cs.len() {
        return None;
    }
    let mut valor: usize = 0;
    let mut i: usize = inicio;
    while i < cs.len()
        invariant
            inicio <= i <= cs.len(),
            inicio < cs.len(),
            cs@ == s@,
            digitos == sin_signo(s@),
            digitos == cs@.skip(inicio as int),
            forall|j: int| inicio <= j < i ==> es_digito(#[trigger] cs@[j]),
            valor as nat == valor_decimal(cs@.subrange(inicio as int, i as int)),
        decreases cs.len() - i,
    {
        let c = cs[i];
        if !('0' <= c && c <= '9') {
            assert(!es_digito(digitos[i - inicio]));
            assert(!todos_digitos(digitos));
            return None;
        }
        let d = (c as u32 - '0' as u32) as usize;
        assert(cs@.subrange(inicio as int, i + 1).drop_last() =~= cs@.subrange(inicio as int, i as int));
        if valor > (usize::MAX - d) / 10 {
            proof {
                assert(valor_decimal(cs@.subrange(inicio as int, i + 1)) == valor * 10 + d);
                assert(valor * 10 + d > usize::MAX) by (nonlinear_arith)
                    requires valor > (usize::MAX - d) / 10, d < 10;
                assert(cs@.subrange(inicio as int, i + 1) =~= digitos.subrange(0, (i + 1 - inicio) as int));
                if todos_digitos(digitos) {
                    lema_valor_decimal_crece(digitos, (i + 1 - inicio) as int);
                }
            }
            return None;
        }
        valor = valor * 10 + d;
        i = i + 1;
    }
    assert(cs@.subrange(inicio as int, cs.len() as int) =~= digitos);
    Some(valor)
}

proof fn lema_valor_decimal_crece(s: Seq<char>, k: int)
    requires
        0 <= k <= s.len(),
        todos_digitos(s),
    ensures
        valor_decimal(s.subrange(0, k)) <= valor_decimal(s),
    decreases s.len() - k,
{
    if k < s.len() {
        lema_valor_decimal_crece(s, k + 1);
        assert(s.subrange(0, k + 1).drop_last() =~= s.subrange(0, k));
    } else {
        assert(s.subrange(0, k) =~= s);
    }
}

/// Every number is read back from its own numeral.
pub proof fn ley_parse_decimal_ida_y_vuelta(n: usize)
    ensures
        spec_parse_usize(decimal(n as nat)) == Some(n),
{
    ley_decimal_se_lee(n as nat);
    let s = decimal(n as nat);
    assert(s[0] != '+') by {
        assert(es_digito(s[0]));
    }
    assert(sin_signo(s) == s);
}


/// Texts by their characters.
pub open spec fn vista_textos(v: Seq<String>) -> Seq<Seq<char>> {
    Seq::new(v.len(), |i: int| v[i]@)
}

/// The texts one after another, with `sep` between each two.
pub open spec fn unir(s: Seq<Seq<char>>, sep: Seq<char>) -> Seq<char>
    decreases s.len(),
{
    if s.len() == 0 {
        Seq::empty()
    } else if s.len() == 1 {
        s[0]
    } else {
        unir(s.drop_last(), sep) + sep + s.last()
    }
}

/// The texts joined with `sep`, as `[String]::join` joins them.
pub fn unir_textos(v: &Vec<String>, sep: &str) -> (r: String)
    ensures
        r@ == unir(vista_textos(v@), sep@),
{
    let mut r = String::new();
    let mut i: usize = 0;
    while i < v.len()
        invariant
            i <= v.len(),
            r@ == unir(vista_textos(v@.take(i as int)), sep@),
        decreases v.len() - i,
    {
        assert(vista_textos(v@.take(i + 1)).drop_last() =~= vista_textos(v@.take(i as int)));
        if i > 0 {
            r.append(sep);
        }
        r.append(v[i].as_str());
        i = i + 1;
    }
    assert(v@.take(v.len() as int) =~= v@);
    r
}
} // verus!
