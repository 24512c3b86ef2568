//! Structs and methods to save and log data about the system: named series
//! of values, one value for each time step, kept in the order in which the
//! series were added.
//!
//! The log does not look into the values it stores. Where it has to add two
//! values or to measure a vector, the caller hands it the operation.

use vstd::prelude::*;

verus! {

/// The names as sequences of characters.
pub open spec fn keys_of(names: Seq<String>) -> Seq<Seq<char>> {
    names.map_values(|s: String| s@)
}

/// The index of `name` among `names`, if it is there.
fn find(names: &Vec<String>, name: &str) -> (found: Option<usize>)
    requires
        keys_of(names@).no_duplicates(),
    ensures
        match found {
            Some(k) => k < names@.len() && keys_of(names@).contains(name@) && k == keys_of(
                names@,
            ).index_of(name@),
            None => !keys_of(names@).contains(name@),
        },
{
    let key = name.to_owned();
    let mut k: usize = 0;
    while k < names.len()
        invariant
            k <= names@.len(),
            key@ == name@,
            keys_of(names@).no_duplicates(),
            forall|j: int| 0 <= j < k ==> keys_of(names@)[j] != name@,
        decreases names@.len() - k,
    {
        if names[k] == key {
            assert(keys_of(names@)[k as int] == name@);
            return Some(k);
        }
        k += 1;
    }
    None
}

/// A map, containing named elements that have a value for each time step.
pub struct LinearData<T> {
    pub names: Vec<String>,
    pub series: Vec<Vec<T>>,
}

impl<T> LinearData<T> {
    /// The names of the series, in the order in which they were added.
    pub open spec fn keys(&self) -> Seq<Seq<char>> {
        keys_of(self.names@)
    }

    /// The values of each series, in the order of `keys`.
    pub open spec fn table(&self) -> Seq<Seq<T>> {
        self.series@.map_values(|v: Vec<T>| v@)
    }

    /// Every name has its series, and no name occurs twice.
    pub open spec fn wf(&self) -> bool {
        self.names@.len() == self.series@.len() && self.keys().no_duplicates()
    }

    /// Whether a series of this name exists.
    pub open spec fn has(&self, name: Seq<char>) -> bool {
        self.keys().contains(name)
    }

    /// Where the series of this name stands among the series.
    pub open spec fn slot(&self, name: Seq<char>) -> int {
        self.keys().index_of(name)
    }

    /// The values of the series of this name.
    pub open spec fn at(&self, name: Seq<char>) -> Seq<T> {
        self.table()[self.slot(name)]
    }

    /// The table once `value` stands behind the series of this name.
    pub open spec fn pushed(&self, name: Seq<char>, value: T) -> Seq<Seq<T>> {
        self.table().update(self.slot(name), self.at(name).push(value))
    }

    /// The table once `value` stands in place of the last value of the
    /// series of this name.
    pub open spec fn replaced_last(&self, name: Seq<char>, value: T) -> Seq<Seq<T>> {
        self.table().update(self.slot(name), self.at(name).drop_last().push(value))
    }

    /// The names once a series of this name was added.
    pub open spec fn added_keys(&self, name: Seq<char>) -> Seq<Seq<char>> {
        if self.has(name) {
            self.keys()
        } else {
            self.keys().push(name)
        }
    }

    /// The table once a series of this name was added: a new name gets an
    /// empty series behind the others, a name that is there has its series
    /// emptied.
    pub open spec fn added_table(&self, name: Seq<char>) -> Seq<Seq<T>> {
        if self.has(name) {
            self.table().update(self.slot(name), Seq::empty())
        } else {
            self.table().push(Seq::empty())
        }
    }

    /// Create a new empty LinearData.
    pub fn new() -> (data: Self)
        ensures
            data.wf(),
            data.keys() == Seq::<Seq<char>>::empty(),
            data.table() == Seq::<Seq<T>>::empty(),
    {
        LinearData { names: Vec::new(), series: Vec::new() }
    }

    /// Whether a series of this name exists.
    pub fn contains(&self, name: &str) -> (found: bool)
        requires
            self.wf(),
        ensures
            found == self.has(name@),
    {
        find(&self.names, name).is_some()
    }

    /// Insert a series into the set. A new name gets an empty series behind
    /// the others; a name that is there already has its series emptied, and
    /// the values it held are returned.
    pub fn add_series(&mut self, name: &str) -> (previous: Option<Vec<T>>)
        requires
            old(self).wf(),
        ensures
            final(self).wf(),
            final(self).keys() == old(self).added_keys(name@),
            final(self).table() == old(self).added_table(name@),
            previous.is_some() == old(self).has(name@),
            previous matches Some(values) ==> values@ == old(self).at(name@),
    {
        match find(&self.names, name) {
            Some(k) => {
                let mut values: Vec<T> = Vec::new();
                std::mem::swap(&mut self.series[k], &mut values);
                Some(values)
            },
            None => {
                self.names.push(name.to_owned());
                self.series.push(Vec::new());
                proof {
                    lemma_keys_push(old(self).names@, self.names@[old(self).names@.len() as int]);
                }
                None
            },
        }
    }

    /// Insert a value into a series.
    pub fn insert_into(&mut self, name: &str, value: T)
        requires
            old(self).wf(),
            old(self).has(name@),
        ensures
            final(self).wf(),
            final(self).keys() == old(self).keys(),
            final(self).table() == old(self).pushed(name@, value),
    {
        let k = find(&self.names, name).unwrap();
        self.series[k].push(value);
    }

    /// Changes the last value of a series.
    pub fn update_last(&mut self, name: &str, value: T)
        requires
            old(self).wf(),
            old(self).has(name@),
            old(self).at(name@).len() > 0,
        ensures
            final(self).wf(),
            final(self).keys() == old(self).keys(),
            final(self).table() == old(self).replaced_last(name@, value),
    {
        let k = find(&self.names, name).unwrap();
        let l = self.series[k].len();
        self.series[k][l - 1] = value;
        proof {
            assert(self.series@[k as int]@ =~= old(self).at(name@).drop_last().push(value));
        }
    }

    /// Get a given series.
    pub fn get(&self, name: &str) -> (values: &Vec<T>)
        requires
            self.wf(),
            self.has(name@),
        ensures
            values@ == self.at(name@),
    {
        let k = find(&self.names, name).unwrap();
        &self.series[k]
    }
}

/// The keys of a list of names with one more name behind it.
proof fn lemma_keys_push(names: Seq<String>, name: String)
    requires
        keys_of(names).no_duplicates(),
        !keys_of(names).contains(name@),
    ensures
        keys_of(names.push(name)) == keys_of(names).push(name@),
        keys_of(names.push(name)).no_duplicates(),
{
    assert(keys_of(names.push(name)) =~= keys_of(names).push(name@));
    let keys = keys_of(names).push(name@);
    assert forall|i: int, j: int| 0 <= i < keys.len() && 0 <= j < keys.len() && i != j implies keys[i]
        != keys[j] by {
        if i < names.len() && j < names.len() {
            assert(keys_of(names)[i] != keys_of(names)[j]);
        } else if i < names.len() {
            assert(keys_of(names)[i] == keys[i]);
        } else {
            assert(keys_of(names)[j] == keys[j]);
        }
    }
}

/// The values of the series of each particle.
pub open spec fn values_of<T>(series: Seq<Vec<T>>) -> Seq<Seq<T>> {
    series.map_values(|v: Vec<T>| v@)
}

/// A map, containing named elements that have a value for each particle for
/// each timestep.
pub struct ParticleData<T> {
    pub names: Vec<String>,
    pub series: Vec<Vec<Vec<T>>>,
    pub particles: usize,
}

/// A map, containing named elements that have a vector of three components
/// for each particle for each timestep.
pub type ParticleVectorData<T> = ParticleData<[T; 3]>;

/// As many empty series as there are particles.
fn empty_series<T>(particles: usize) -> (series: Vec<Vec<T>>)
    ensures
        values_of(series@) == Seq::new(particles as nat, |p: int| Seq::<T>::empty()),
{
    let mut series: Vec<Vec<T>> = Vec::new();
    let mut p: usize = 0;
    while p < particles
        invariant
            p <= particles,
            series@.len() == p,
            forall|q: int| 0 <= q < p ==> (#[trigger] series@[q])@ == Seq::<T>::empty(),
        decreases particles - p,
    {
        series.push(Vec::new());
        p += 1;
    }
    series
}

impl<T> ParticleData<T> {
    /// The names of the series, in the order in which they were added.
    pub open spec fn keys(&self) -> Seq<Seq<char>> {
        keys_of(self.names@)
    }

    /// The values of each series, in the order of `keys`: for each particle
    /// one value for each time step.
    pub open spec fn table(&self) -> Seq<Seq<Seq<T>>> {
        self.series@.map_values(|s: Vec<Vec<T>>| values_of(s@))
    }

    /// Every name has its series, and no name occurs twice.
    pub open spec fn wf(&self) -> bool {
        self.names@.len() == self.series@.len() && self.keys().no_duplicates()
    }

    /// Whether a series of this name exists.
    pub open spec fn has(&self, name: Seq<char>) -> bool {
        self.keys().contains(name)
    }

    /// Where the series of this name stands among the series.
    pub open spec fn slot(&self, name: Seq<char>) -> int {
        self.keys().index_of(name)
    }

    /// The values of the series of this name, particle by particle.
    pub open spec fn at(&self, name: Seq<char>) -> Seq<Seq<T>> {
        self.table()[self.slot(name)]
    }

    /// The table once `value` stands behind the values of a particle in the
    /// series of this name.
    pub open spec fn pushed(&self, name: Seq<char>, index: int, value: T) -> Seq<Seq<Seq<T>>> {
        self.table().update(
            self.slot(name),
            self.at(name).update(index, self.at(name)[index].push(value)),
        )
    }

    /// The table once `value` stands in place of the last value of a
    /// particle in the series of this name.
    pub open spec fn replaced_last(&self, name: Seq<char>, index: int, value: T) -> Seq<
        Seq<Seq<T>>,
    > {
        self.table().update(
            self.slot(name),
            self.at(name).update(index, self.at(name)[index].drop_last().push(value)),
        )
    }

    /// The names once a series of this name was added.
    pub open spec fn added_keys(&self, name: Seq<char>) -> Seq<Seq<char>> {
        if self.has(name) {
            self.keys()
        } else {
            self.keys().push(name)
        }
    }

    /// The table once a series of this name was added: a new name gets an
    /// empty series for each particle, behind the other names; a name that
    /// is there is left without any particle.
    pub open spec fn added_table(&self, name: Seq<char>) -> Seq<Seq<Seq<T>>> {
        if self.has(name) {
            self.table().update(self.slot(name), Seq::empty())
        } else {
            self.table().push(Seq::new(self.particles as nat, |p: int| Seq::<T>::empty()))
        }
    }

    /// Create a new empty ParticleData, with a given number of particles.
    pub fn new(particles: usize) -> (data: Self)
        ensures
            data.wf(),
            data.particles == particles,
            data.keys() == Seq::<Seq<char>>::empty(),
            data.table() == Seq::<Seq<Seq<T>>>::empty(),
    {
        ParticleData { names: Vec::new(), series: Vec::new(), particles }
    }

    /// Whether a series of this name exists.
    pub fn contains(&self, name: &str) -> (found: bool)
        requires
            self.wf(),
        ensures
            found == self.has(name@),
    {
        find(&self.names, name).is_some()
    }

    /// Insert a series into the set. A new name gets an empty series for
    /// each particle, behind the other names. A name that is there already
    /// is left without any particle, and what it held is returned.
    pub fn add_series(&mut self, name: &str) -> (previous: Option<Vec<Vec<T>>>)
        requires
            old(self).wf(),
        ensures
            final(self).wf(),
            final(self).particles == old(self).particles,
            final(self).keys() == old(self).added_keys(name@),
            final(self).table() == old(self).added_table(name@),
            previous.is_some() == old(self).has(name@),
            previous matches Some(values) ==> values_of(values@) == old(self).at(name@),
    {
        match find(&self.names, name) {
            Some(k) => {
                let mut values: Vec<Vec<T>> = Vec::new();
                std::mem::swap(&mut self.series[k], &mut values);
                assert(values_of(self.series@[k as int]@) =~= Seq::<Seq<T>>::empty());
                Some(values)
            },
            None => {
                self.names.push(name.to_owned());
                self.series.push(empty_series(self.particles));
                proof {
                    lemma_keys_push(old(self).names@, self.names@[old(self).names@.len() as int]);
                }
                None
            },
        }
    }

    /// Insert a value for a given particle into a given series.
    pub fn insert_into(&mut self, name: &str, index: usize, value: T)
        requires
            old(self).wf(),
            old(self).has(name@),
            index < old(self).at(name@).len(),
        ensures
            final(self).wf(),
            final(self).particles == old(self).particles,
            final(self).keys() == old(self).keys(),
            final(self).table() == old(self).pushed(name@, index as int, value),
    {
        let k = find(&self.names, name).unwrap();
        self.series[k][index].push(value);
        proof {
            assert(values_of(self.series@[k as int]@) =~= old(self).at(name@).update(
                index as int,
                old(self).at(name@)[index as int].push(value),
            ));
        }
    }

    /// Changes the last value of a given particle in a given series.
    pub fn update_last(&mut self, name: &str, index: usize, value: T)
        requires
            old(self).wf(),
            old(self).has(name@),
            index < old(self).at(name@).len(),
            old(self).at(name@)[index as int].len() > 0,
        ensures
            final(self).wf(),
            final(self).particles == old(self).particles,
            final(self).keys() == old(self).keys(),
            final(self).table() == old(self).replaced_last(name@, index as int, value),
    {
        let k = find(&self.names, name).unwrap();
        let l = self.series[k][index].len();
        self.series[k][index][l - 1] = value;
        proof {
            assert(self.series@[k as int]@[index as int]@ =~= old(self).at(name@)[index as int].drop_last().push(value));
            assert(values_of(self.series@[k as int]@) =~= old(self).at(name@).update(
                index as int,
                old(self).at(name@)[index as int].drop_last().push(value),
            ));
        }
    }

    /// Get a given series, with all particles.
    pub fn get(&self, name: &str) -> (values: &Vec<Vec<T>>)
        requires
            self.wf(),
            self.has(name@),
        ensures
            values_of(values@) == self.at(name@),
    {
        let k = find(&self.names, name).unwrap();
        &self.series[k]
    }
}

/// A collection of a LinearData, ParticleData, ParticleVectorData, and a time
/// series. Used to store all data about a system over time.
pub struct DataLog<T> {
    pub time: Vec<T>,
    pub global: LinearData<T>,
    pub particle: ParticleData<T>,
    pub particle_vector: ParticleVectorData<T>,
}

/// The first `n` pairs of a time with the value recorded at it, as far as
/// both reach.
pub open spec fn paired<A, B>(time: Seq<A>, values: Seq<B>) -> Seq<(A, B)> {
    Seq::new(
        if time.len() < values.len() {
            time.len()
        } else {
            values.len()
        },
        |i: int| (time[i], values[i]),
    )
}

/// Pairs each time with the value recorded at it.
fn zip_series<A: Copy, B: Copy>(time: &Vec<A>, values: &Vec<B>) -> (pairs: Vec<(A, B)>)
    ensures
        pairs@ == paired(time@, values@),
{
    let n = if time.len() < values.len() { time.len() } else { values.len() };
    let mut pairs: Vec<(A, B)> = Vec::new();
    let mut i: usize = 0;
    while i < n
        invariant
            i <= n,
            n <= time@.len(),
            n <= values@.len(),
            pairs@.len() == i,
            forall|j: int| 0 <= j < i ==> pairs@[j] == (time@[j], values@[j]),
        decreases n - i,
    {
        pairs.push((time[i], values[i]));
        i += 1;
    }
    pairs
}

impl<T: Copy> DataLog<T> {
    /// Each of the three kinds of data is well formed.
    pub open spec fn wf(&self) -> bool {
        self.global.wf() && self.particle.wf() && self.particle_vector.wf()
    }

    /// Create a new DataLog, for a given number of particles.
    pub fn new(particles: usize) -> (log: Self)
        ensures
            log.wf(),
            log.time@ == Seq::<T>::empty(),
            log.global.keys() == Seq::<Seq<char>>::empty(),
            log.particle.keys() == Seq::<Seq<char>>::empty(),
            log.particle_vector.keys() == Seq::<Seq<char>>::empty(),
            log.particle.particles == particles,
            log.particle_vector.particles == particles,
    {
        DataLog {
            time: Vec::new(),
            global: LinearData::new(),
            particle: ParticleData::new(particles),
            particle_vector: ParticleData::new(particles),
        }
    }

    /// The pairs (time, value) of a global value.
    pub fn global_as_iter(&self, name: &str) -> (pairs: Vec<(T, T)>)
        requires
            self.wf(),
            self.global.has(name@),
        ensures
            pairs@ == paired(self.time@, self.global.at(name@)),
    {
        zip_series(&self.time, self.global.get(name))
    }

    /// The pairs (time, value) of a value of a particle.
    pub fn particle_as_iter(&self, name: &str, index: usize) -> (pairs: Vec<(T, T)>)
        requires
            self.wf(),
            self.particle.has(name@),
            index < self.particle.at(name@).len(),
        ensures
            pairs@ == paired(self.time@, self.particle.at(name@)[index as int]),
    {
        let series = self.particle.get(name);
        zip_series(&self.time, &series[index])
    }

    /// The pairs (time, vector) of a vector value of a particle.
    pub fn particle_vector_as_iter(&self, name: &str, index: usize) -> (pairs: Vec<(T, [T; 3])>)
        requires
            self.wf(),
            self.particle_vector.has(name@),
            index < self.particle_vector.at(name@).len(),
        ensures
            pairs@ == paired(self.time@, self.particle_vector.at(name@)[index as int]),
    {
        let series = self.particle_vector.get(name);
        zip_series(&self.time, &series[index])
    }

    /// Create a global series and a particle series with a given name.
    pub fn add_particle_series(&mut self, name: &str)
        requires
            old(self).wf(),
        ensures
            final(self).wf(),
            final(self).time@ == old(self).time@,
            final(self).particle_vector == old(self).particle_vector,
            final(self).particle.particles == old(self).particle.particles,
            final(self).particle.keys() == old(self).particle.added_keys(name@),
            final(self).particle.table() == old(self).particle.added_table(name@),
            final(self).global.keys() == old(self).global.added_keys(name@),
            final(self).global.table() == old(self).global.added_table(name@),
    {
        self.particle.add_series(name);
        self.global.add_series(name);
    }

    /// Create a particle series and a particle vector series with the same
    /// name.
    pub fn add_particle_vector_series(&mut self, name: &str)
        requires
            old(self).wf(),
        ensures
            final(self).wf(),
            final(self).time@ == old(self).time@,
            final(self).global == old(self).global,
            final(self).particle.particles == old(self).particle.particles,
            final(self).particle_vector.particles == old(self).particle_vector.particles,
            final(self).particle.keys() == old(self).particle.added_keys(name@),
            final(self).particle.table() == old(self).particle.added_table(name@),
            final(self).particle_vector.keys() == old(self).particle_vector.added_keys(name@),
            final(self).particle_vector.table() == old(self).particle_vector.added_table(name@),
    {
        self.particle_vector.add_series(name);
        self.particle.add_series(name);
    }
}

impl<T: Copy> DataLog<T> {
    /// Simultaneously insert a value into a particle series, and add the
    /// value to the corresponding global series. The first particle to
    /// report in a step opens the global total of that step with its value;
    /// each later one has its value added to that total by `plus`.
    pub fn insert_particle_add<F: Fn(T, T) -> T>(
        &mut self,
        name: &str,
        index: usize,
        value: T,
        plus: F,
    )
        requires
            old(self).wf(),
            old(self).particle.has(name@),
            old(self).global.has(name@),
            index < old(self).particle.at(name@).len(),
            forall|a: T, b: T| plus.requires((a, b)),
        ensures
            final(self).wf(),
            final(self).time@ == old(self).time@,
            final(self).particle_vector == old(self).particle_vector,
            final(self).particle.particles == old(self).particle.particles,
            final(self).particle.keys() == old(self).particle.keys(),
            final(self).particle.table() == old(self).particle.pushed(name@, index as int, value),
            final(self).global.keys() == old(self).global.keys(),
            old(self).global.at(name@).len() <= old(self).particle.at(name@)[index as int].len()
                ==> final(self).global.table() == old(self).global.pushed(name@, value),
            old(self).global.at(name@).len() > old(self).particle.at(name@)[index as int].len()
                ==> plus.ensures(
                (old(self).global.at(name@).last(), value),
                final(self).global.at(name@).last(),
            ) && final(self).global.table() == old(self).global.replaced_last(
                name@,
                final(self).global.at(name@).last(),
            ),
    {
        self.particle.insert_into(name, index, value);
        let l = self.global.get(name).len();
        let series = self.particle.get(name);
        proof {
            assert(self.particle.at(name@) == old(self).particle.at(name@).update(
                index as int,
                old(self).particle.at(name@)[index as int].push(value),
            ));
            assert(values_of(series@)[index as int] == series@[index as int]@);
        }
        if l < series[index].len() {
            // If there isnt a value for the global part yet
            self.global.insert_into(name, value);
        } else {
            let total = self.global.get(name)[l - 1];
            self.global.update_last(name, plus(total, value));
        }
    }

    /// Insert (if the last element doesn't exist yet) or add to the Particle
    /// series, according to insert_particle_add().
    ///
    /// If the particle already has a value for the current step, `plus` adds
    /// `value` to it and to the total of the step.
    pub fn add_to_particle_add<F: Fn(T, T) -> T>(
        &mut self,
        name: &str,
        index: usize,
        value: T,
        plus: F,
    )
        requires
            old(self).wf(),
            old(self).particle.has(name@),
            old(self).global.has(name@),
            index < old(self).particle.at(name@).len(),
            old(self).particle.at(name@)[index as int].len() == old(self).time@.len() ==> old(
                self,
            ).time@.len() > 0 && old(self).global.at(name@).len() > 0,
            forall|a: T, b: T| plus.requires((a, b)),
        ensures
            final(self).wf(),
            final(self).time@ == old(self).time@,
            final(self).particle_vector == old(self).particle_vector,
            final(self).particle.particles == old(self).particle.particles,
            final(self).particle.keys() == old(self).particle.keys(),
            final(self).global.keys() == old(self).global.keys(),
            old(self).particle.at(name@)[index as int].len() == old(self).time@.len() ==> {
                &&& plus.ensures(
                    (old(self).global.at(name@).last(), value),
                    final(self).global.at(name@).last(),
                )
                &&& final(self).global.table() == old(self).global.replaced_last(
                    name@,
                    final(self).global.at(name@).last(),
                )
                &&& plus.ensures(
                    (old(self).particle.at(name@)[index as int].last(), value),
                    final(self).particle.at(name@)[index as int].last(),
                )
                &&& final(self).particle.table() == old(self).particle.replaced_last(
                    name@,
                    index as int,
                    final(self).particle.at(name@)[index as int].last(),
                )
            },
            old(self).particle.at(name@)[index as int].len() != old(self).time@.len() ==> {
                &&& final(self).particle.table() == old(self).particle.pushed(
                    name@,
                    index as int,
                    value,
                )
                &&& old(self).global.at(name@).len() <= old(self).particle.at(
                    name@,
                )[index as int].len() ==> final(self).global.table() == old(self).global.pushed(
                    name@,
                    value,
                )
                &&& old(self).global.at(name@).len() > old(self).particle.at(
                    name@,
                )[index as int].len() ==> plus.ensures(
                    (old(self).global.at(name@).last(), value),
                    final(self).global.at(name@).last(),
                ) && final(self).global.table() == old(self).global.replaced_last(
                    name@,
                    final(self).global.at(name@).last(),
                )
            },
    {
        let series = self.particle.get(name);
        let v_l = series[index].len();
        if v_l == self.time.len() {
            // Update the last element
            let own = series[index][v_l - 1];
            let totals = self.global.get(name);
            let total = totals[totals.len() - 1];
            self.global.update_last(name, plus(total, value));
            self.particle.update_last(name, index, plus(own, value));
        } else {
            // Insert a new element
            self.insert_particle_add(name, index, value, plus);
        }
    }

    /// Simultaneously insert a vector into a ParticleVector series, and
    /// insert the length of the vector, as `norm` measures it, into the
    /// particle series of the same name.
    pub fn insert_particle_vector_len<G: Fn([T; 3]) -> T>(
        &mut self,
        name: &str,
        index: usize,
        value: [T; 3],
        norm: G,
    )
        requires
            old(self).wf(),
            old(self).particle_vector.has(name@),
            old(self).particle.has(name@),
            index < old(self).particle_vector.at(name@).len(),
            index < old(self).particle.at(name@).len(),
            forall|v: [T; 3]| norm.requires((v,)),
        ensures
            final(self).wf(),
            final(self).time@ == old(self).time@,
            final(self).global == old(self).global,
            final(self).particle.particles == old(self).particle.particles,
            final(self).particle_vector.particles == old(self).particle_vector.particles,
            final(self).particle.keys() == old(self).particle.keys(),
            final(self).particle_vector.keys() == old(self).particle_vector.keys(),
            final(self).particle_vector.table() == old(self).particle_vector.pushed(
                name@,
                index as int,
                value,
            ),
            norm.ensures((value,), final(self).particle.at(name@)[index as int].last()),
            final(self).particle.table() == old(self).particle.pushed(
                name@,
                index as int,
                final(self).particle.at(name@)[index as int].last(),
            ),
    {
        self.particle_vector.insert_into(name, index, value);
        self.particle.insert_into(name, index, norm(value));
    }

    /// Insert (if the last element doesn't exist yet) or update the
    /// ParticleVector series, according to insert_particle_vector_len().
    ///
    /// If the particle already has a vector for the current step, `plus` adds
    /// `value` to it component by component, and the length of the sum takes
    /// the place of the length recorded for the step.
    pub fn add_to_particle_vector_len<F: Fn(T, T) -> T, G: Fn([T; 3]) -> T>(
        &mut self,
        name: &str,
        index: usize,
        value: [T; 3],
        plus: F,
        norm: G,
    )
        requires
            old(self).wf(),
            old(self).particle_vector.has(name@),
            old(self).particle.has(name@),
            index < old(self).particle_vector.at(name@).len(),
            index < old(self).particle.at(name@).len(),
            old(self).particle_vector.at(name@)[index as int].len() == old(self).time@.len()
                ==> old(self).time@.len() > 0 && old(self).particle.at(name@)[index as int].len()
                > 0,
            forall|a: T, b: T| plus.requires((a, b)),
            forall|v: [T; 3]| norm.requires((v,)),
        ensures
            final(self).wf(),
            final(self).time@ == old(self).time@,
            final(self).global == old(self).global,
            final(self).particle.particles == old(self).particle.particles,
            final(self).particle_vector.particles == old(self).particle_vector.particles,
            final(self).particle.keys() == old(self).particle.keys(),
            final(self).particle_vector.keys() == old(self).particle_vector.keys(),
            norm.ensures(
                (final(self).particle_vector.at(name@)[index as int].last(),),
                final(self).particle.at(name@)[index as int].last(),
            ),
            old(self).particle_vector.at(name@)[index as int].len() == old(self).time@.len() ==> {
                &&& forall|k: int|
                    0 <= k < 3 ==> plus.ensures(
                        (
                            old(self).particle_vector.at(name@)[index as int].last()[k],
                            value[k],
                        ),
                        #[trigger] final(self).particle_vector.at(name@)[index as int].last()[k],
                    )
                &&& final(self).particle_vector.table() == old(self).particle_vector.replaced_last(
                    name@,
                    index as int,
                    final(self).particle_vector.at(name@)[index as int].last(),
                )
                &&& final(self).particle.table() == old(self).particle.replaced_last(
                    name@,
                    index as int,
                    final(self).particle.at(name@)[index as int].last(),
                )
            },
            old(self).particle_vector.at(name@)[index as int].len() != old(self).time@.len() ==> {
                &&& final(self).particle_vector.table() == old(self).particle_vector.pushed(
                    name@,
                    index as int,
                    value,
                )
                &&& final(self).particle.table() == old(self).particle.pushed(
                    name@,
                    index as int,
                    final(self).particle.at(name@)[index as int].last(),
                )
            },
    {
        let series = self.particle_vector.get(name);
        let v_l = series[index].len();
        if v_l == self.time.len() {
            // Update the last element
            let own = series[index][v_l - 1];
            let sum = [plus(own[0], value[0]), plus(own[1], value[1]), plus(own[2], value[2])];
            self.particle_vector.update_last(name, index, sum);
            self.particle.update_last(name, index, norm(sum));
        } else {
            // Insert a new element
            self.insert_particle_vector_len(name, index, value, norm);
        }
    }
}

} // verus!
