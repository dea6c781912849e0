//! Validation of the textual date (`dd/mm/aaaa`) and time (`hh:mm`) fields.
//!
//! A field is cut at its separator into pieces, every piece is read as a number,
//! and the numbers are held against the calendar or the clock. A piece that is no
//! number counts as zero: for a date that rejects the field, since zero is no day,
//! month or year; for a time it does not, since zero is both an hour and a minute,
//! so that `":"` and `"a:b"` are accepted as midnight.
//!
//! The definitions [`primeiro`], [`partes`] and [`valor_digitos`] are recursive. A
//! proof about a text that is written out reveals the literal; then, for a text of
//! the usual form, [`lei_data_na_forma_usual`] or [`lei_hora_na_forma_usual`] says
//! whether it is valid, and the contracts of [`validar_data`] and [`validar_hora`]
//! say so themselves. For any other text the proof gives the definitions fuel:
//! [`partes`] one unit more than there are pieces, the other two one unit more
//! than the longest piece has characters.

use vstd::prelude::*;

verus! {

/// Whether `t` holds no `sep`.
pub open spec fn livre_de(t: Seq<char>, sep: char) -> bool {
    forall|i: int| 0 <= i < t.len() ==> t[i] != sep
}

/// The first position from `i` on at which `s` holds `sep`, or the length of `s` if
/// there is none.
pub open spec fn primeiro(s: Seq<char>, sep: char, i: int) -> int
    decreases s.len() - i,
{
    if i < 0 || i >= s.len() {
        s.len() as int
    } else if s[i] == sep {
        i
    } else {
        primeiro(s, sep, i + 1)
    }
}

/// The pieces of `s` between the occurrences of `sep`, from left to right: what
/// stands before the first separator, then the pieces of what stands after it.
/// There is always one piece more than there are separators; a piece may be empty.
pub open spec fn partes(s: Seq<char>, sep: char) -> Seq<Seq<char>>
    decreases s.len(),
{
    let i = primeiro(s, sep, 0);
    if 0 <= i < s.len() {
        seq![s.take(i)] + partes(s.skip(i + 1), sep)
    } else {
        seq![s]
    }
}

/// The pieces of `p` written one after the other with `sep` between them.
pub open spec fn juntar(p: Seq<Seq<char>>, sep: char) -> Seq<char>
    decreases p.len(),
{
    if p.len() == 0 {
        Seq::<char>::empty()
    } else if p.len() == 1 {
        p[0]
    } else {
        p[0] + seq![sep] + juntar(p.skip(1), sep)
    }
}

/// Whether `c` is one of the ten decimal digits.
pub open spec fn eh_digito(c: char) -> bool {
    '0' <= c <= '9'
}

/// Whether every character of `d` is a decimal digit.
pub open spec fn so_digitos(d: Seq<char>) -> bool {
    forall|i: int| 0 <= i < d.len() ==> eh_digito(#[trigger] d[i])
}

/// The number that the decimal digits `d` write; zero for no digits.
pub open spec fn valor_digitos(d: Seq<char>) -> nat
    decreases d.len(),
{
    if d.len() == 0 {
        0
    } else {
        10 * valor_digitos(d.drop_last()) + (d.last() as u32 - '0' as u32) as nat
    }
}

/// `t` without its leading plus sign, if it has one.
pub open spec fn sem_sinal(t: Seq<char>) -> Seq<char> {
    if t.len() > 0 && t[0] == '+' {
        t.skip(1)
    } else {
        t
    }
}

/// The number that `t` writes, if it writes one: an optional plus sign, then one or
/// more decimal digits whose value fits in 32 bits.
pub open spec fn numero(t: Seq<char>) -> Option<u32> {
    let d = sem_sinal(t);
    if d.len() > 0 && so_digitos(d) && valor_digitos(d) <= u32::MAX {
        Some(valor_digitos(d) as u32)
    } else {
        None
    }
}

/// The number that counts for the piece `t`: the one it writes, or zero when it
/// writes none.
pub open spec fn valor_da_parte(t: Seq<char>) -> nat {
    match numero(t) {
        Some(n) => n as nat,
        None => 0,
    }
}

/// Whether `ano` is a leap year of the Gregorian calendar.
pub open spec fn ano_bissexto(ano: nat) -> bool {
    ano % 4 == 0 && (ano % 100 != 0 || ano % 400 == 0)
}

/// The number of days of month `mes` (1 to 12) in year `ano`.
pub open spec fn dias_no_mes(mes: nat, ano: nat) -> nat {
    if mes == 4 || mes == 6 || mes == 9 || mes == 11 {
        30
    } else if mes == 2 {
        if ano_bissexto(ano) {
            29
        } else {
            28
        }
    } else {
        31
    }
}

/// Whether day, month and year name a day of the calendar. Zero is no day, no month
/// and no year.
pub open spec fn dia_mes_ano_validos(dia: nat, mes: nat, ano: nat) -> bool {
    &&& 1 <= mes <= 12
    &&& 1 <= ano
    &&& 1 <= dia <= dias_no_mes(mes, ano)
}

/// Whether `s` is a date: exactly three pieces between slashes, whose numbers are
/// day, month and year of a day of the calendar.
pub open spec fn data_valida(s: Seq<char>) -> bool {
    let p = partes(s, '/');
    &&& p.len() == 3
    &&& dia_mes_ano_validos(valor_da_parte(p[0]), valor_da_parte(p[1]), valor_da_parte(p[2]))
}

/// Whether `s` is a time of day: exactly two pieces around a colon, whose numbers
/// are an hour below 24 and a minute below 60.
pub open spec fn hora_valida(s: Seq<char>) -> bool {
    let p = partes(s, ':');
    &&& p.len() == 2
    &&& valor_da_parte(p[0]) < 24
    &&& valor_da_parte(p[1]) < 60
}

/// Whether `s` is three numbers with a slash between each two of them.
pub open spec fn tres_numeros(s: Seq<char>) -> bool {
    exists|a: Seq<char>, b: Seq<char>, c: Seq<char>|
        #![trigger a + seq!['/'] + b + seq!['/'] + c]
        numero(a) is Some && numero(b) is Some && numero(c) is Some && s == a + seq!['/'] + b
            + seq!['/'] + c
}

/// Whether `s` is a day written out: three numbers with a slash between each two
/// of them, which are day, month and year of a day of the calendar.
pub open spec fn dia_escrito(s: Seq<char>) -> bool {
    exists|a: Seq<char>, b: Seq<char>, c: Seq<char>|
        #![trigger a + seq!['/'] + b + seq!['/'] + c]
        {
            &&& s == a + seq!['/'] + b + seq!['/'] + c
            &&& numero(a) is Some
            &&& numero(b) is Some
            &&& numero(c) is Some
            &&& dia_mes_ano_validos(valor_da_parte(a), valor_da_parte(b), valor_da_parte(c))
        }
}

/// Whether `s` is a time of day written out: two texts around one colon, of which
/// the first counts for an hour below 24 and the second for a minute below 60.
pub open spec fn hora_escrita(s: Seq<char>) -> bool {
    exists|a: Seq<char>, b: Seq<char>|
        #![trigger a + seq![':'] + b]
        {
            &&& s == a + seq![':'] + b
            &&& livre_de(a, ':')
            &&& livre_de(b, ':')
            &&& valor_da_parte(a) < 24
            &&& valor_da_parte(b) < 60
        }
}

/// The number that the digit `c` stands for.
pub open spec fn digito(c: char) -> nat {
    (c as u32 - '0' as u32) as nat
}

/// Whether `s` has the usual form `dd/mm/aaaa`: two digits, a slash, two digits, a
/// slash and four digits.
pub open spec fn forma_dd_mm_aaaa(s: Seq<char>) -> bool {
    &&& s.len() == 10
    &&& s[2] == '/'
    &&& s[5] == '/'
    &&& eh_digito(s[0])
    &&& eh_digito(s[1])
    &&& eh_digito(s[3])
    &&& eh_digito(s[4])
    &&& eh_digito(s[6])
    &&& eh_digito(s[7])
    &&& eh_digito(s[8])
    &&& eh_digito(s[9])
}

/// Whether `s` has the usual form `hh:mm`: two digits, a colon and two digits.
pub open spec fn forma_hh_mm(s: Seq<char>) -> bool {
    &&& s.len() == 5
    &&& s[2] == ':'
    &&& eh_digito(s[0])
    &&& eh_digito(s[1])
    &&& eh_digito(s[3])
    &&& eh_digito(s[4])
}

/// `primeiro` finds a separator, and the first one: it lies between `i` and the
/// length, nothing from `i` up to it is a separator, and what it points at is one
/// unless it is the length.
pub proof fn lema_primeiro(s: Seq<char>, sep: char, i: int)
    requires
        0 <= i <= s.len(),
    ensures
        i <= primeiro(s, sep, i) <= s.len(),
        forall|k: int| i <= k < primeiro(s, sep, i) ==> s[k] != sep,
        primeiro(s, sep, i) < s.len() ==> s[primeiro(s, sep, i)] == sep,
    decreases s.len() - i,
{
    if i < s.len() && s[i] != sep {
        lema_primeiro(s, sep, i + 1);
    }
}

/// Cutting a text and joining the pieces again gives the text back, and no piece
/// holds the separator.
pub proof fn lema_partes_juntar(s: Seq<char>, sep: char)
    ensures
        juntar(partes(s, sep), sep) == s,
        forall|k: int|
            0 <= k < partes(s, sep).len() ==> livre_de(#[trigger] partes(s, sep)[k], sep),
    decreases s.len(),
{
    let i = primeiro(s, sep, 0);
    lema_primeiro(s, sep, 0);
    if i < s.len() {
        let resto = s.skip(i + 1);
        let p = partes(s, sep);
        lema_partes_juntar(resto, sep);
        assert(p.skip(1) == partes(resto, sep));
        assert(s == s.take(i) + seq![sep] + resto);
        assert forall|k: int| 0 <= k < p.len() implies livre_de(#[trigger] p[k], sep) by {
            if k > 0 {
                assert(p[k] == partes(resto, sep)[k - 1]);
            }
        }
    }
}

/// A text whose first separator stands at `i` is cut there.
pub proof fn lema_corte(s: Seq<char>, sep: char, i: int)
    requires
        0 <= i < s.len(),
        s[i] == sep,
        livre_de(s.take(i), sep),
    ensures
        partes(s, sep) == seq![s.take(i)] + partes(s.skip(i + 1), sep),
{
    lema_primeiro(s, sep, 0);
    assert forall|k: int| 0 <= k < i implies s[k] != sep by {
        assert(s.take(i)[k] == s[k]);
    }
}

/// A text without a separator is one piece.
pub proof fn lema_sem_corte(s: Seq<char>, sep: char)
    requires
        livre_de(s, sep),
    ensures
        partes(s, sep) == seq![s],
{
    lema_primeiro(s, sep, 0);
}

/// Joining pieces that hold no separator and cutting the text again gives the
/// pieces back: they are the only way to write the text as pieces free of
/// separators with one separator between each two.
pub proof fn lema_juntar_partes(p: Seq<Seq<char>>, sep: char)
    requires
        p.len() >= 1,
        forall|k: int| 0 <= k < p.len() ==> livre_de(#[trigger] p[k], sep),
    ensures
        partes(juntar(p, sep), sep) == p,
    decreases p.len(),
{
    if p.len() == 1 {
        lema_sem_corte(p[0], sep);
    } else {
        let s = juntar(p, sep);
        let n = p[0].len() as int;
        let resto = juntar(p.skip(1), sep);
        assert forall|k: int| 0 <= k < p.skip(1).len() implies livre_de(
            #[trigger] p.skip(1)[k],
            sep,
        ) by {
            assert(p.skip(1)[k] == p[k + 1]);
        }
        lema_juntar_partes(p.skip(1), sep);
        assert(s.take(n) == p[0]);
        assert(s.skip(n + 1) == resto);
        lema_corte(s, sep, n);
        assert(seq![p[0]] + p.skip(1) == p);
    }
}

/// A number holds no slash.
proof fn lema_numero_sem_barra(t: Seq<char>)
    requires
        numero(t) is Some,
    ensures
        livre_de(t, '/'),
{
    let d = sem_sinal(t);
    assert forall|i: int| 0 <= i < t.len() implies t[i] != '/' by {
        if t[0] == '+' {
            if i > 0 {
                assert(eh_digito(d[i - 1]));
            }
        } else {
            assert(eh_digito(d[i]));
        }
    }
}

/// The valid dates are exactly the days written out: `validar_data` accepts
/// `d/m/a` for numbers `d`, `m` and `a` that name a day of the calendar, and
/// nothing else.
pub proof fn lei_data_valida_e_dia_escrito(s: Seq<char>)
    ensures
        data_valida(s) <==> dia_escrito(s),
{
    let barra = seq!['/'];
    if data_valida(s) {
        let p = partes(s, '/');
        lema_partes_juntar(s, '/');
        assert(juntar(p.skip(1).skip(1), '/') == p[2]);
        assert(juntar(p.skip(1), '/') == p[1] + barra + p[2]);
        assert(s == p[0] + barra + p[1] + barra + p[2]);
    }
    if dia_escrito(s) {
        let (a, b, c) = choose|a: Seq<char>, b: Seq<char>, c: Seq<char>|
            #![trigger a + seq!['/'] + b + seq!['/'] + c]
            {
                &&& s == a + seq!['/'] + b + seq!['/'] + c
                &&& numero(a) is Some
                &&& numero(b) is Some
                &&& numero(c) is Some
                &&& dia_mes_ano_validos(valor_da_parte(a), valor_da_parte(b), valor_da_parte(c))
            };
        let p = seq![a, b, c];
        lema_numero_sem_barra(a);
        lema_numero_sem_barra(b);
        lema_numero_sem_barra(c);
        lema_juntar_partes(p, '/');
        assert(juntar(p.skip(1).skip(1), '/') == c);
        assert(juntar(p.skip(1), '/') == b + barra + c);
        assert(juntar(p, '/') == a + barra + (b + barra + c));
        assert(a + barra + (b + barra + c) == a + barra + b + barra + c);
    }
}

/// The valid times are exactly the times of day written out. The two texts around
/// the colon need not be numbers: one that is none counts as zero.
pub proof fn lei_hora_valida_e_hora_escrita(s: Seq<char>)
    ensures
        hora_valida(s) <==> hora_escrita(s),
{
    let dois_pontos = seq![':'];
    if hora_valida(s) {
        let p = partes(s, ':');
        lema_partes_juntar(s, ':');
        assert(juntar(p.skip(1), ':') == p[1]);
        assert(s == p[0] + dois_pontos + p[1]);
        assert(livre_de(p[0], ':'));
        assert(livre_de(p[1], ':'));
    }
    if hora_escrita(s) {
        let (a, b) = choose|a: Seq<char>, b: Seq<char>|
            #![trigger a + seq![':'] + b]
            {
                &&& s == a + seq![':'] + b
                &&& livre_de(a, ':')
                &&& livre_de(b, ':')
                &&& valor_da_parte(a) < 24
                &&& valor_da_parte(b) < 60
            };
        let p = seq![a, b];
        lema_juntar_partes(p, ':');
        assert(juntar(p.skip(1), ':') == b);
    }
}

/// Two digits write ten times the first plus the second.
proof fn lema_dois_digitos(t: Seq<char>)
    requires
        t.len() == 2,
        so_digitos(t),
    ensures
        numero(t) == Some((10 * digito(t[0]) + digito(t[1])) as u32),
{
    reveal_with_fuel(valor_digitos, 3);
    assert(eh_digito(t[0]) && eh_digito(t[1]));
    assert(t.drop_last().drop_last().len() == 0);
}

/// Four digits write thousands, hundreds, tens and units.
proof fn lema_quatro_digitos(t: Seq<char>)
    requires
        t.len() == 4,
        so_digitos(t),
    ensures
        numero(t) == Some(
            (1000 * digito(t[0]) + 100 * digito(t[1]) + 10 * digito(t[2]) + digito(t[3])) as u32,
        ),
{
    reveal_with_fuel(valor_digitos, 5);
    assert(eh_digito(t[0]) && eh_digito(t[1]) && eh_digito(t[2]) && eh_digito(t[3]));
    assert(t.drop_last().drop_last().drop_last().drop_last().len() == 0);
}

/// A text of the usual form `dd/mm/aaaa` is a date exactly when its digits, read as
/// day, month and year, name a day of the calendar.
pub proof fn lei_data_na_forma_usual(s: Seq<char>)
    requires
        forma_dd_mm_aaaa(s),
    ensures
        data_valida(s) == dia_mes_ano_validos(
            10 * digito(s[0]) + digito(s[1]),
            10 * digito(s[3]) + digito(s[4]),
            1000 * digito(s[6]) + 100 * digito(s[7]) + 10 * digito(s[8]) + digito(s[9]),
        ),
{
    let dia = s.take(2);
    let depois = s.skip(3);
    let mes = depois.take(2);
    let ano = depois.skip(3);
    assert(livre_de(dia, '/'));
    lema_corte(s, '/', 2);
    assert(livre_de(mes, '/'));
    lema_corte(depois, '/', 2);
    assert(livre_de(ano, '/'));
    lema_sem_corte(ano, '/');
    assert(partes(s, '/') == seq![dia, mes, ano]);
    lema_dois_digitos(dia);
    lema_dois_digitos(mes);
    lema_quatro_digitos(ano);
}

/// A text of the usual form `hh:mm` is a time of day exactly when its first two
/// digits write an hour below 24 and its last two a minute below 60.
pub proof fn lei_hora_na_forma_usual(s: Seq<char>)
    requires
        forma_hh_mm(s),
    ensures
        hora_valida(s) == (10 * digito(s[0]) + digito(s[1]) < 24 && 10 * digito(s[3]) + digito(
            s[4],
        ) < 60),
{
    let hora = s.take(2);
    let minuto = s.skip(3);
    assert(livre_de(hora, ':'));
    lema_corte(s, ':', 2);
    assert(livre_de(minuto, ':'));
    lema_sem_corte(minuto, ':');
    assert(partes(s, ':') == seq![hora, minuto]);
    lema_dois_digitos(hora);
    lema_dois_digitos(minuto);
}

/// A date that is valid is written as three numbers with slashes between them:
/// whatever is not of that form is rejected.
pub proof fn lei_data_exige_tres_numeros(s: Seq<char>)
    requires
        !tres_numeros(s),
    ensures
        !data_valida(s),
{
    lei_data_valida_e_dia_escrito(s);
}

/// The characters of `s`, in order.
fn caracteres(s: &str) -> (v: Vec<char>)
    ensures
        v@ == s@,
{
    let mut v: Vec<char> = Vec::new();
    for c in it: s.chars()
        invariant
            it.seq() == s@,
            v@ == s@.take(it.index() as int),
    {
        v.push(c);
    }
    v
}

/// Cuts `s` at every `sep`. Each piece comes back as the positions where it starts
/// and where it ends in `s`.
fn dividir(s: &Vec<char>, sep: char) -> (r: Vec<(usize, usize)>)
    ensures
        r@.len() == partes(s@, sep).len(),
        forall|k: int|
            0 <= k < r@.len() ==> (#[trigger] r@[k]).0 <= r@[k].1 <= s@.len() && s@.subrange(
                r@[k].0 as int,
                r@[k].1 as int,
            ) == partes(s@, sep)[k],
{
    let mut r: Vec<(usize, usize)> = Vec::new();
    let mut inicio: usize = 0;
    let mut i: usize = 0;
    let n = s.len();
    assert(s@.skip(0) == s@);
    while i < n
        invariant
            n == s@.len(),
            inicio <= i <= n,
            livre_de(s@.subrange(inicio as int, i as int), sep),
            partes(s@, sep).len() == r@.len() + partes(s@.skip(inicio as int), sep).len(),
            forall|k: int|
                r@.len() <= k < partes(s@, sep).len() ==> partes(s@, sep)[k] == partes(
                    s@.skip(inicio as int),
                    sep,
                )[k - r@.len()],
            forall|k: int|
                0 <= k < r@.len() ==> (#[trigger] r@[k]).0 <= r@[k].1 <= n && s@.subrange(
                    r@[k].0 as int,
                    r@[k].1 as int,
                ) == partes(s@, sep)[k],
        decreases n - i,
    {
        if s[i] == sep {
            proof {
                let resto = s@.skip(inicio as int);
                assert(resto.take(i - inicio) == s@.subrange(inicio as int, i as int));
                assert(resto.skip(i - inicio + 1) == s@.skip(i + 1));
                lema_corte(resto, sep, i - inicio);
            }
            r.push((inicio, i));
            inicio = i + 1;
        } else {
            assert(s@.subrange(inicio as int, i + 1) == s@.subrange(inicio as int, i as int).push(
                s@[i as int],
            ));
        }
        i += 1;
    }
    proof {
        assert(s@.skip(inicio as int) == s@.subrange(inicio as int, n as int));
        lema_sem_corte(s@.skip(inicio as int), sep);
    }
    r.push((inicio, n));
    r
}

/// Reading more digits never gives a smaller number.
proof fn lema_valor_cresce(d: Seq<char>, k: int)
    requires
        so_digitos(d),
        0 <= k <= d.len(),
    ensures
        valor_digitos(d.take(k)) <= valor_digitos(d),
    decreases d.len(),
{
    if k == d.len() {
        assert(d.take(k) == d);
    } else {
        let antes = d.drop_last();
        lema_valor_cresce(antes, k);
        assert(antes.take(k) == d.take(k));
    }
}

/// The number that counts for the piece of `s` from position `ini` up to `fim`.
fn valor_do_trecho(s: &Vec<char>, ini: usize, fim: usize) -> (r: u32)
    requires
        ini <= fim <= s@.len(),
    ensures
        r == valor_da_parte(s@.subrange(ini as int, fim as int)),
{
    let ghost t = s@.subrange(ini as int, fim as int);
    let mut i: usize = ini;
    if i < fim && s[i] == '+' {
        i += 1;
    }
    let ghost d = s@.subrange(i as int, fim as int);
    if i == fim {
        return 0;
    }
    let mut acc: u64 = 0;
    let mut j: usize = i;
    while j < fim
        invariant
            ini <= i <= j <= fim <= s@.len(),
            t == s@.subrange(ini as int, fim as int),
            d == s@.subrange(i as int, fim as int),
            d == sem_sinal(t),
            so_digitos(d.take(j - i)),
            acc == valor_digitos(d.take(j - i)),
            acc <= u32::MAX,
        decreases fim - j,
    {
        let c = s[j];
        assert(d.take(j - i + 1).drop_last() == d.take(j - i));
        assert(d.take(j - i + 1).last() == c);
        if !(c >= '0' && c <= '9') {
            return 0;
        }
        acc = acc * 10 + (c as u32 - '0' as u32) as u64;
        if acc > u32::MAX as u64 {
            proof {
                if so_digitos(d) {
                    lema_valor_cresce(d, j - i + 1);
                }
            }
            return 0;
        }
        j += 1;
    }
    assert(d.take(fim - i) == d);
    acc as u32
}

/// Decides whether three numbers name a day of the calendar.
fn validar_dia_mes_ano(dia: u32, mes: u32, ano: u32) -> (r: bool)
    ensures
        r == dia_mes_ano_validos(dia as nat, mes as nat, ano as nat),
{
    if dia == 0 || mes == 0 || ano == 0 || mes > 12 || dia > 31 {
        return false;
    }
    if mes == 4 || mes == 6 || mes == 9 || mes == 11 {
        dia <= 30
    } else if mes == 2 {
        if ano % 4 == 0 && (ano % 100 != 0 || ano % 400 == 0) {
            dia <= 29
        } else {
            dia <= 28
        }
    } else {
        dia <= 31
    }
}

/// Decides whether `data` is a date in the form `dd/mm/aaaa`.
///
/// The text is cut at its slashes and must give exactly three pieces: day, month
/// and year. April, June, September and November have 30 days, February has 28, or
/// 29 in a leap year, the other months have 31. Digits need not be padded with
/// zeros, and a number may carry a plus sign.
pub fn validar_data(data: &str) -> (r: bool)
    ensures
        r == data_valida(data@),
        r == dia_escrito(data@),
        r ==> tres_numeros(data@),
        forma_dd_mm_aaaa(data@) ==> r == dia_mes_ano_validos(
            10 * digito(data@[0]) + digito(data@[1]),
            10 * digito(data@[3]) + digito(data@[4]),
            1000 * digito(data@[6]) + 100 * digito(data@[7]) + 10 * digito(data@[8]) + digito(
                data@[9],
            ),
        ),
{
    proof {
        lei_data_valida_e_dia_escrito(data@);
        if forma_dd_mm_aaaa(data@) {
            lei_data_na_forma_usual(data@);
        }
    }
    let s = caracteres(data);
    let p = dividir(&s, '/');
    if p.len() != 3 {
        return false;
    }
    let dia = valor_do_trecho(&s, p[0].0, p[0].1);
    let mes = valor_do_trecho(&s, p[1].0, p[1].1);
    let ano = valor_do_trecho(&s, p[2].0, p[2].1);
    validar_dia_mes_ano(dia, mes, ano)
}

/// Decides whether `hora` is a time of day in the form `hh:mm`.
///
/// The text is cut at its colons and must give exactly two pieces: an hour below 24
/// and a minute below 60. A piece that is no number counts as zero.
pub fn validar_hora(hora: &str) -> (r: bool)
    ensures
        r == hora_valida(hora@),
        r == hora_escrita(hora@),
        forma_hh_mm(hora@) ==> r == (10 * digito(hora@[0]) + digito(hora@[1]) < 24 && 10 * digito(
            hora@[3],
        ) + digito(hora@[4]) < 60),
{
    proof {
        lei_hora_valida_e_hora_escrita(hora@);
        if forma_hh_mm(hora@) {
            lei_hora_na_forma_usual(hora@);
        }
    }
    let s = caracteres(hora);
    let p = dividir(&s, ':');
    if p.len() != 2 {
        return false;
    }
    let h = valor_do_trecho(&s, p[0].0, p[0].1);
    let m = valor_do_trecho(&s, p[1].0, p[1].1);
    h < 24 && m < 60
}

} // verus!
