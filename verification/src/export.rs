//! The log as a table of text: a header row that names the columns and one
//! row for each time step, the time first, then every global series, every
//! particle series particle by particle, and every vector series particle
//! by particle with its three components. Series keep the order in which
//! they were added, so the same log always gives the same columns.

use crate::log_data::keys_of;
use crate::log_data::values_of;
use crate::log_data::DataLog;
use vstd::prelude::*;

verus! {

/// The character of a decimal digit.
pub open spec fn digit(d: int) -> char {
    if d == 0 {
        '0'
    } else if d == 1 {
        '1'
    } else if d == 2 {
        '2'
    } else if d == 3 {
        '3'
    } else if d == 4 {
        '4'
    } else if d == 5 {
        '5'
    } else if d == 6 {
        '6'
    } else if d == 7 {
        '7'
    } else if d == 8 {
        '8'
    } else {
        '9'
    }
}

/// A number written in decimal digits, without leading zeros.
pub open spec fn decimal(n: nat) -> Seq<char>
    decreases n,
{
    if n < 10 {
        seq![digit(n as int)]
    } else {
        decimal(n / 10).push(digit((n % 10) as int))
    }
}

/// The name of the column of particle `i` in the series `key`, with the
/// comma before it.
pub open spec fn particle_column(key: Seq<char>, i: nat) -> Seq<char> {
    seq![','] + key + seq!['_'] + decimal(i)
}

/// The names of the three columns of particle `i` in the vector series
/// `key`, each with the comma before it.
pub open spec fn vector_columns(key: Seq<char>, i: nat) -> Seq<char> {
    particle_column(key, i) + seq!['_', 'x'] + particle_column(key, i) + seq!['_', 'y']
        + particle_column(key, i) + seq!['_', 'z']
}

/// The column names of the first `n` particles of one series.
pub open spec fn series_columns(key: Seq<char>, n: nat, vector: bool) -> Seq<char>
    decreases n,
{
    if n == 0 {
        Seq::empty()
    } else {
        series_columns(key, (n - 1) as nat, vector) + if vector {
            vector_columns(key, (n - 1) as nat)
        } else {
            particle_column(key, (n - 1) as nat)
        }
    }
}

/// The column names of the first `k` series of a kind, each with all its
/// particles.
pub open spec fn kind_columns(keys: Seq<Seq<char>>, particles: nat, k: nat, vector: bool) -> Seq<
    char,
>
    decreases k,
{
    if k == 0 {
        Seq::empty()
    } else {
        kind_columns(keys, particles, (k - 1) as nat, vector) + series_columns(
            keys[k - 1],
            particles,
            vector,
        )
    }
}

/// The column names of the first `k` global series, each with the comma
/// before it.
pub open spec fn global_columns(keys: Seq<Seq<char>>, k: nat) -> Seq<char>
    decreases k,
{
    if k == 0 {
        Seq::empty()
    } else {
        global_columns(keys, (k - 1) as nat) + seq![','] + keys[k - 1]
    }
}

/// The values of the first `k` global series at step `t`.
pub open spec fn global_cells<T>(table: Seq<Seq<T>>, k: nat, t: int) -> Seq<T>
    decreases k,
{
    if k == 0 {
        Seq::empty()
    } else {
        global_cells(table, (k - 1) as nat, t).push(table[k - 1][t])
    }
}

/// The values of the first `n` particles of one series at step `t`.
pub open spec fn series_cells<T>(series: Seq<Seq<T>>, n: nat, t: int) -> Seq<T>
    decreases n,
{
    if n == 0 {
        Seq::empty()
    } else {
        series_cells(series, (n - 1) as nat, t).push(series[n - 1][t])
    }
}

/// The components of the vectors of the first `n` particles of one series
/// at step `t`.
pub open spec fn vector_cells<T>(series: Seq<Seq<[T; 3]>>, n: nat, t: int) -> Seq<T>
    decreases n,
{
    if n == 0 {
        Seq::empty()
    } else {
        vector_cells(series, (n - 1) as nat, t).push(series[n - 1][t][0]).push(
            series[n - 1][t][1],
        ).push(series[n - 1][t][2])
    }
}

/// The values of the first `k` particle series at step `t`.
pub open spec fn particle_cells<T>(table: Seq<Seq<Seq<T>>>, particles: nat, k: nat, t: int) -> Seq<
    T,
>
    decreases k,
{
    if k == 0 {
        Seq::empty()
    } else {
        particle_cells(table, particles, (k - 1) as nat, t) + series_cells(
            table[k - 1],
            particles,
            t,
        )
    }
}

/// The components of the first `k` vector series at step `t`.
pub open spec fn particle_vector_cells<T>(
    table: Seq<Seq<Seq<[T; 3]>>>,
    particles: nat,
    k: nat,
    t: int,
) -> Seq<T>
    decreases k,
{
    if k == 0 {
        Seq::empty()
    } else {
        particle_vector_cells(table, particles, (k - 1) as nat, t) + vector_cells(
            table[k - 1],
            particles,
            t,
        )
    }
}

/// The cells of a row, with a comma between each two.
pub open spec fn joined(cells: Seq<Seq<char>>) -> Seq<char>
    decreases cells.len(),
{
    if cells.len() == 0 {
        Seq::empty()
    } else if cells.len() == 1 {
        cells[0]
    } else {
        joined(cells.drop_last()) + seq![','] + cells.last()
    }
}

/// `cells` are texts that `format` can give for `values`, one for each.
pub open spec fn formatted<T, F: Fn(T) -> String>(format: F, values: Seq<T>, cells: Seq<String>) -> bool {
    cells.len() == values.len() && forall|j: int|
        0 <= j < values.len() ==> format.ensures((values[j],), #[trigger] cells[j])
}

/// `line` is a row of `values`: what `format` gives for each, with commas
/// between.
pub open spec fn is_row<T, F: Fn(T) -> String>(format: F, values: Seq<T>, line: Seq<char>) -> bool {
    exists|cells: Seq<String>| formatted(format, values, cells) && line == joined(keys_of(cells))
}

/// The text of one decimal digit.
fn digit_str(d: usize) -> (s: &'static str)
    requires
        d < 10,
    ensures
        s@ == seq![digit(d as int)],
{
    proof {
        reveal_strlit("0");
        reveal_strlit("1");
        reveal_strlit("2");
        reveal_strlit("3");
        reveal_strlit("4");
        reveal_strlit("5");
        reveal_strlit("6");
        reveal_strlit("7");
        reveal_strlit("8");
        reveal_strlit("9");
    }
    if d == 0 {
        "0"
    } else if d == 1 {
        "1"
    } else if d == 2 {
        "2"
    } else if d == 3 {
        "3"
    } else if d == 4 {
        "4"
    } else if d == 5 {
        "5"
    } else if d == 6 {
        "6"
    } else if d == 7 {
        "7"
    } else if d == 8 {
        "8"
    } else {
        "9"
    }
}

/// Appends a number in decimal digits.
fn push_decimal(line: &mut String, n: usize)
    ensures
        final(line)@ == old(line)@ + decimal(n as nat),
    decreases n,
{
    if n < 10 {
        line.append(digit_str(n));
    } else {
        push_decimal(line, n / 10);
        line.append(digit_str(n % 10));
    }
}

/// Appends the name of the column of particle `i` in the series `key`.
fn push_particle_column(line: &mut String, key: &str, i: usize)
    ensures
        final(line)@ == old(line)@ + particle_column(key@, i as nat),
{
    proof {
        reveal_strlit(",");
        reveal_strlit("_");
    }
    line.append(",");
    line.append(key);
    line.append("_");
    push_decimal(line, i);
}

/// Appends the column names of all particles of all series of a kind.
fn push_kind_columns(line: &mut String, names: &Vec<String>, particles: usize, vector: bool)
    ensures
        final(line)@ == old(line)@ + kind_columns(
            keys_of(names@),
            particles as nat,
            names@.len(),
            vector,
        ),
{
    let mut k: usize = 0;
    while k < names.len()
        invariant
            k <= names@.len(),
            line@ == old(line)@ + kind_columns(keys_of(names@), particles as nat, k as nat, vector),
        decreases names@.len() - k,
    {
        let ghost start = line@;
        let key = names[k].as_str();
        let mut i: usize = 0;
        while i < particles
            invariant
                i <= particles,
                line@ == start + series_columns(key@, i as nat, vector),
            decreases particles - i,
        {
            if vector {
                proof {
                    reveal_strlit("_x");
                    reveal_strlit("_y");
                    reveal_strlit("_z");
                }
                push_particle_column(line, key, i);
                line.append("_x");
                push_particle_column(line, key, i);
                line.append("_y");
                push_particle_column(line, key, i);
                line.append("_z");
            } else {
                push_particle_column(line, key, i);
            }
            i += 1;
        }
        assert(line@ =~= old(line)@ + kind_columns(
            keys_of(names@),
            particles as nat,
            (k + 1) as nat,
            vector,
        ));
        k += 1;
    }
}

impl<T: Copy> DataLog<T> {
    /// The header row: `t`, then the name of each global series, then for
    /// each particle series and each particle the name, `_` and the number
    /// of the particle, then the same for each vector series with `_x`,
    /// `_y` and `_z` behind it.
    pub open spec fn header_text(&self) -> Seq<char> {
        seq!['t'] + global_columns(self.global.keys(), self.global.keys().len()) + kind_columns(
            self.particle.keys(),
            self.particle.particles as nat,
            self.particle.keys().len(),
            false,
        ) + kind_columns(
            self.particle_vector.keys(),
            self.particle_vector.particles as nat,
            self.particle_vector.keys().len(),
            true,
        )
    }

    /// The values of the row of step `t`, in the order of the header.
    pub open spec fn row_values(&self, t: int) -> Seq<T> {
        seq![self.time@[t]] + global_cells(self.global.table(), self.global.table().len(), t)
            + particle_cells(
            self.particle.table(),
            self.particle.particles as nat,
            self.particle.table().len(),
            t,
        ) + particle_vector_cells(
            self.particle_vector.table(),
            self.particle_vector.particles as nat,
            self.particle_vector.table().len(),
            t,
        )
    }

    /// Every series has a value for every time step of every particle, so
    /// that every row can be written.
    pub open spec fn complete(&self) -> bool {
        &&& forall|k: int|
            0 <= k < self.global.table().len() ==> (#[trigger] self.global.table()[k]).len()
                >= self.time@.len()
        &&& forall|k: int|
            0 <= k < self.particle.table().len() ==> (#[trigger] self.particle.table()[k]).len()
                >= self.particle.particles
        &&& forall|k: int, i: int|
            0 <= k < self.particle.table().len() && 0 <= i < self.particle.particles
                ==> (#[trigger] self.particle.table()[k][i]).len() >= self.time@.len()
        &&& forall|k: int|
            0 <= k < self.particle_vector.table().len()
                ==> (#[trigger] self.particle_vector.table()[k]).len()
                >= self.particle_vector.particles
        &&& forall|k: int, i: int|
            0 <= k < self.particle_vector.table().len() && 0 <= i
                < self.particle_vector.particles
                ==> (#[trigger] self.particle_vector.table()[k][i]).len() >= self.time@.len()
    }

    /// The header row of the table, without a line end.
    pub fn header(&self) -> (line: String)
        requires
            self.wf(),
        ensures
            line@ == self.header_text(),
    {
        proof {
            reveal_strlit("t");
            reveal_strlit(",");
        }
        let mut line = "t".to_owned();
        let mut k: usize = 0;
        while k < self.global.names.len()
            invariant
                k <= self.global.names@.len(),
                line@ == seq!['t'] + global_columns(self.global.keys(), k as nat),
            decreases self.global.names@.len() - k,
        {
            proof {
                reveal_strlit(",");
            }
            line.append(",");
            line.append(self.global.names[k].as_str());
            k += 1;
        }
        push_kind_columns(&mut line, &self.particle.names, self.particle.particles, false);
        push_kind_columns(
            &mut line,
            &self.particle_vector.names,
            self.particle_vector.particles,
            true,
        );
        line
    }
}

/// Writes the values as one row: what `format` gives for each, with commas
/// between.
pub fn join_row<T: Copy, F: Fn(T) -> String>(values: &Vec<T>, format: &F) -> (line: String)
    requires
        forall|v: T| format.requires((v,)),
    ensures
        is_row(*format, values@, line@),
{
    let mut line = String::new();
    let ghost mut cells: Seq<String> = Seq::empty();
    let mut j: usize = 0;
    while j < values.len()
        invariant
            j <= values@.len(),
            forall|v: T| format.requires((v,)),
            cells.len() == j,
            forall|i: int| 0 <= i < j ==> format.ensures((values@[i],), #[trigger] cells[i]),
            line@ == joined(keys_of(cells)),
        decreases values@.len() - j,
    {
        let cell = format(values[j]);
        if j > 0 {
            proof {
                reveal_strlit(",");
            }
            line.append(",");
        }
        line.append(cell.as_str());
        proof {
            let next = cells.push(cell);
            assert(keys_of(next).drop_last() =~= keys_of(cells));
            cells = next;
        }
        j += 1;
    }
    assert(formatted(*format, values@, cells));
    line
}

impl<T: Copy> DataLog<T> {
    /// Whether every series has a value for every time step of every
    /// particle.
    pub fn is_complete(&self) -> (ok: bool)
        requires
            self.wf(),
        ensures
            ok == self.complete(),
    {
        let steps = self.time.len();
        let mut k: usize = 0;
        while k < self.global.series.len()
            invariant
                k <= self.global.series@.len(),
                steps == self.time@.len(),
                forall|j: int|
                    0 <= j < k ==> (#[trigger] self.global.table()[j]).len() >= self.time@.len(),
            decreases self.global.series@.len() - k,
        {
            if self.global.series[k].len() < steps {
                assert(self.global.table()[k as int].len() < self.time@.len());
                return false;
            }
            k += 1;
        }
        let scalars = series_complete(&self.particle.series, self.particle.particles, steps);
        let vectors = series_complete(
            &self.particle_vector.series,
            self.particle_vector.particles,
            steps,
        );
        proof {
            assert forall|k: int| 0 <= k < self.particle.series@.len() implies values_of(
                #[trigger] self.particle.series@[k]@,
            ) == self.particle.table()[k] by {}
            assert forall|k: int| 0 <= k < self.particle_vector.series@.len() implies values_of(
                #[trigger] self.particle_vector.series@[k]@,
            ) == self.particle_vector.table()[k] by {}
        }
        scalars && vectors
    }

    /// The values of the row of step `t`, in the order of the header.
    pub fn row(&self, t: usize) -> (values: Vec<T>)
        requires
            self.wf(),
            self.complete(),
            t < self.time@.len(),
        ensures
            values@ == self.row_values(t as int),
    {
        let mut values: Vec<T> = Vec::new();
        values.push(self.time[t]);
        let mut k: usize = 0;
        while k < self.global.series.len()
            invariant
                k <= self.global.series@.len(),
                self.complete(),
                t < self.time@.len(),
                values@ == seq![self.time@[t as int]] + global_cells(
                    self.global.table(),
                    k as nat,
                    t as int,
                ),
            decreases self.global.series@.len() - k,
        {
            assert(self.global.table()[k as int] == self.global.series@[k as int]@);
            values.push(self.global.series[k][t]);
            assert(values@ =~= seq![self.time@[t as int]] + global_cells(
                self.global.table(),
                (k + 1) as nat,
                t as int,
            ));
            k += 1;
        }
        let ghost globals = values@;
        let mut k: usize = 0;
        while k < self.particle.series.len()
            invariant
                k <= self.particle.series@.len(),
                self.complete(),
                t < self.time@.len(),
                values@ == globals + particle_cells(
                    self.particle.table(),
                    self.particle.particles as nat,
                    k as nat,
                    t as int,
                ),
            decreases self.particle.series@.len() - k,
        {
            let ghost start = values@;
            let series = &self.particle.series[k];
            let mut i: usize = 0;
            while i < self.particle.particles
                invariant
                    i <= self.particle.particles,
                    k < self.particle.series@.len(),
                    self.complete(),
                    t < self.time@.len(),
                    values_of(series@) == self.particle.table()[k as int],
                    values@ == start + series_cells(values_of(series@), i as nat, t as int),
                decreases self.particle.particles - i,
            {
                assert(values_of(series@)[i as int] == series@[i as int]@);
                values.push(series[i][t]);
                assert(values@ =~= start + series_cells(
                    values_of(series@),
                    (i + 1) as nat,
                    t as int,
                ));
                i += 1;
            }
            assert(values@ =~= globals + particle_cells(
                self.particle.table(),
                self.particle.particles as nat,
                (k + 1) as nat,
                t as int,
            ));
            k += 1;
        }
        let ghost scalars = values@;
        let mut k: usize = 0;
        while k < self.particle_vector.series.len()
            invariant
                k <= self.particle_vector.series@.len(),
                self.complete(),
                t < self.time@.len(),
                values@ == scalars + particle_vector_cells(
                    self.particle_vector.table(),
                    self.particle_vector.particles as nat,
                    k as nat,
                    t as int,
                ),
            decreases self.particle_vector.series@.len() - k,
        {
            let ghost start = values@;
            let series = &self.particle_vector.series[k];
            let mut i: usize = 0;
            while i < self.particle_vector.particles
                invariant
                    i <= self.particle_vector.particles,
                    k < self.particle_vector.series@.len(),
                    self.complete(),
                    t < self.time@.len(),
                    values_of(series@) == self.particle_vector.table()[k as int],
                    values@ == start + vector_cells(values_of(series@), i as nat, t as int),
                decreases self.particle_vector.particles - i,
            {
                assert(self.particle_vector.table()[k as int][i as int].len()
                    >= self.time@.len());
                let vector = series[i][t];
                values.push(vector[0]);
                values.push(vector[1]);
                values.push(vector[2]);
                assert(values@ =~= start + vector_cells(
                    values_of(series@),
                    (i + 1) as nat,
                    t as int,
                ));
                i += 1;
            }
            assert(values@ =~= scalars + particle_vector_cells(
                self.particle_vector.table(),
                self.particle_vector.particles as nat,
                (k + 1) as nat,
                t as int,
            ));
            k += 1;
        }
        values
    }

    /// The whole table as lines of text without line ends: the header row,
    /// then one row for each time step, every value written by `format`.
    pub fn to_lines<F: Fn(T) -> String>(&self, format: F) -> (lines: Vec<String>)
        requires
            self.wf(),
            self.complete(),
            forall|v: T| format.requires((v,)),
        ensures
            lines@.len() == self.time@.len() + 1,
            lines@[0]@ == self.header_text(),
            forall|t: int|
                0 <= t < self.time@.len() ==> is_row(
                    format,
                    self.row_values(t),
                    #[trigger] lines@[t + 1]@,
                ),
    {
        let mut lines: Vec<String> = Vec::new();
        lines.push(self.header());
        let mut t: usize = 0;
        while t < self.time.len()
            invariant
                t <= self.time@.len(),
                self.wf(),
                self.complete(),
                forall|v: T| format.requires((v,)),
                lines@.len() == t + 1,
                lines@[0]@ == self.header_text(),
                forall|u: int|
                    0 <= u < t ==> is_row(format, self.row_values(u), #[trigger] lines@[u + 1]@),
            decreases self.time@.len() - t,
        {
            let values = self.row(t);
            let line = join_row(&values, &format);
            lines.push(line);
            t += 1;
        }
        lines
    }
}

/// Whether each series has at least `particles` particles, each of them with
/// at least `steps` values.
fn series_complete<V>(series: &Vec<Vec<Vec<V>>>, particles: usize, steps: usize) -> (ok: bool)
    ensures
        ok == ((forall|k: int|
            0 <= k < series@.len() ==> values_of(#[trigger] series@[k]@).len() >= particles)
            && (forall|k: int, i: int|
            0 <= k < series@.len() && 0 <= i < particles ==> (#[trigger] values_of(
                series@[k]@,
            )[i]).len() >= steps)),
{
    let mut k: usize = 0;
    while k < series.len()
        invariant
            k <= series@.len(),
            forall|j: int| 0 <= j < k ==> values_of(#[trigger] series@[j]@).len() >= particles,
            forall|j: int, i: int|
                0 <= j < k && 0 <= i < particles ==> (#[trigger] values_of(series@[j]@)[i]).len()
                    >= steps,
        decreases series@.len() - k,
    {
        let one = &series[k];
        if one.len() < particles {
            return false;
        }
        let mut i: usize = 0;
        while i < particles
            invariant
                i <= particles,
                k < series@.len(),
                one@ == series@[k as int]@,
                one@.len() >= particles,
                forall|p: int| 0 <= p < i ==> (#[trigger] values_of(one@)[p]).len() >= steps,
            decreases particles - i,
        {
            if one[i].len() < steps {
                assert(values_of(series@[k as int]@)[i as int].len() < steps);
                return false;
            }
            i += 1;
        }
        k += 1;
    }
    true
}

} // verus!
