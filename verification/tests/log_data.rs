use mdsim::log_data::DataLog;
use mdsim::log_data::LinearData;
use mdsim::log_data::ParticleData;
use mdsim::log_data::ParticleVectorData;

fn plus(a: f64, b: f64) -> f64 {
    a + b
}

fn norm(v: [f64; 3]) -> f64 {
    (v[0] * v[0] + v[1] * v[1] + v[2] * v[2]).sqrt()
}

fn show(v: f64) -> String {
    v.to_string()
}

#[test]
fn linear_data_starts_empty() {
    let data: LinearData<f64> = LinearData::new();
    assert!(!data.contains("temperature"));
    assert_eq!(data.names.len(), 0);
    assert_eq!(data.series.len(), 0);
}

#[test]
fn linear_series_collects_values_in_order() {
    let mut data: LinearData<f64> = LinearData::new();
    assert_eq!(data.add_series("temperature"), None);
    assert_eq!(data.add_series("scale"), None);
    data.insert_into("temperature", 1.5);
    data.insert_into("scale", 9.0);
    data.insert_into("temperature", 2.5);
    assert_eq!(data.get("temperature"), &vec![1.5, 2.5]);
    assert_eq!(data.get("scale"), &vec![9.0]);
    assert!(data.contains("scale"));
    assert!(!data.contains("scal"));
    assert_eq!(data.names, vec!["temperature".to_string(), "scale".to_string()]);
}

#[test]
fn linear_series_added_again_is_emptied_and_keeps_its_place() {
    let mut data: LinearData<f64> = LinearData::new();
    data.add_series("a");
    data.add_series("b");
    data.insert_into("a", 1.0);
    data.insert_into("b", 2.0);
    assert_eq!(data.add_series("a"), Some(vec![1.0]));
    assert_eq!(data.get("a"), &Vec::<f64>::new());
    assert_eq!(data.get("b"), &vec![2.0]);
    assert_eq!(data.names, vec!["a".to_string(), "b".to_string()]);
}

#[test]
fn linear_update_last_replaces_the_last_value() {
    let mut data: LinearData<i64> = LinearData::new();
    data.add_series("n");
    data.insert_into("n", 1);
    data.insert_into("n", 2);
    data.update_last("n", 7);
    assert_eq!(data.get("n"), &vec![1, 7]);
}

#[test]
fn particle_series_has_an_empty_series_for_each_particle() {
    let mut data: ParticleData<f64> = ParticleData::new(3);
    assert_eq!(data.particles, 3);
    assert_eq!(data.add_series("energy"), None);
    assert_eq!(data.get("energy"), &vec![Vec::<f64>::new(); 3]);
    let mut none: ParticleData<f64> = ParticleData::new(0);
    none.add_series("energy");
    assert_eq!(none.get("energy").len(), 0);
}

#[test]
fn particle_values_go_to_their_particle() {
    let mut data: ParticleData<f64> = ParticleData::new(2);
    data.add_series("energy");
    data.add_series("speed");
    data.insert_into("energy", 1, 4.0);
    data.insert_into("energy", 0, 3.0);
    data.insert_into("energy", 1, 5.0);
    data.insert_into("speed", 0, 8.0);
    assert_eq!(data.get("energy"), &vec![vec![3.0], vec![4.0, 5.0]]);
    assert_eq!(data.get("speed"), &vec![vec![8.0], vec![]]);
    data.update_last("energy", 1, 6.0);
    assert_eq!(data.get("energy"), &vec![vec![3.0], vec![4.0, 6.0]]);
}

#[test]
fn particle_series_added_again_loses_its_particles() {
    let mut data: ParticleData<f64> = ParticleData::new(2);
    data.add_series("energy");
    data.insert_into("energy", 0, 3.0);
    assert_eq!(data.add_series("energy"), Some(vec![vec![3.0], vec![]]));
    assert_eq!(data.get("energy").len(), 0);
    assert!(data.contains("energy"));
}

#[test]
fn particle_vector_data_holds_triples() {
    let mut data: ParticleVectorData<f64> = ParticleVectorData::new(1);
    data.add_series("position");
    data.insert_into("position", 0, [1.0, 2.0, 3.0]);
    assert_eq!(data.get("position"), &vec![vec![[1.0, 2.0, 3.0]]]);
}

#[test]
fn new_log_is_empty() {
    let log: DataLog<f64> = DataLog::new(3);
    assert_eq!(log.time.len(), 0);
    assert_eq!(log.particle.particles, 3);
    assert_eq!(log.particle_vector.particles, 3);
    assert!(log.is_complete());
    assert_eq!(log.header(), "t");
    assert_eq!(log.to_lines(show), vec!["t".to_string()]);
}

#[test]
fn add_particle_series_adds_the_global_series_too() {
    let mut log: DataLog<f64> = DataLog::new(2);
    log.add_particle_series("energy");
    assert!(log.particle.contains("energy"));
    assert!(log.global.contains("energy"));
    assert!(!log.particle_vector.contains("energy"));
    assert_eq!(log.particle.get("energy").len(), 2);
}

#[test]
fn add_particle_vector_series_adds_the_particle_series_too() {
    let mut log: DataLog<f64> = DataLog::new(2);
    log.add_particle_vector_series("force");
    assert!(log.particle_vector.contains("force"));
    assert!(log.particle.contains("force"));
    assert!(!log.global.contains("force"));
}

#[test]
fn first_particle_of_a_step_opens_the_total_and_the_others_add_to_it() {
    let mut log: DataLog<f64> = DataLog::new(3);
    log.add_particle_series("energy");
    log.time.push(0.0);
    log.insert_particle_add("energy", 0, 1.0, plus);
    assert_eq!(log.global.get("energy"), &vec![1.0]);
    log.insert_particle_add("energy", 1, 2.0, plus);
    assert_eq!(log.global.get("energy"), &vec![3.0]);
    log.insert_particle_add("energy", 2, 4.0, plus);
    assert_eq!(log.global.get("energy"), &vec![7.0]);
    log.time.push(1.0);
    log.insert_particle_add("energy", 2, 10.0, plus);
    assert_eq!(log.global.get("energy"), &vec![7.0, 10.0]);
    log.insert_particle_add("energy", 0, 20.0, plus);
    assert_eq!(log.global.get("energy"), &vec![7.0, 30.0]);
    assert_eq!(log.particle.get("energy"), &vec![vec![1.0, 20.0], vec![2.0], vec![4.0, 10.0]]);
}

#[test]
fn add_to_particle_add_inserts_once_in_a_step_and_then_accumulates() {
    let mut log: DataLog<f64> = DataLog::new(2);
    log.add_particle_series("energy");
    log.time.push(0.0);
    // the pair (0, 1) reports to both particles
    log.add_to_particle_add("energy", 0, 1.5, plus);
    log.add_to_particle_add("energy", 1, 1.5, plus);
    assert_eq!(log.particle.get("energy"), &vec![vec![1.5], vec![1.5]]);
    assert_eq!(log.global.get("energy"), &vec![3.0]);
    // a second contribution in the same step
    log.add_to_particle_add("energy", 0, 2.0, plus);
    assert_eq!(log.particle.get("energy"), &vec![vec![3.5], vec![1.5]]);
    assert_eq!(log.global.get("energy"), &vec![5.0]);
    log.time.push(1.0);
    log.add_to_particle_add("energy", 1, 4.0, plus);
    assert_eq!(log.particle.get("energy"), &vec![vec![3.5], vec![1.5, 4.0]]);
    assert_eq!(log.global.get("energy"), &vec![5.0, 4.0]);
}

#[test]
fn vector_is_logged_with_its_length() {
    let mut log: DataLog<f64> = DataLog::new(2);
    log.add_particle_vector_series("velocity");
    log.time.push(0.0);
    log.insert_particle_vector_len("velocity", 1, [3.0, 4.0, 0.0], norm);
    log.insert_particle_vector_len("velocity", 0, [0.0, 0.0, 0.0], norm);
    assert_eq!(log.particle_vector.get("velocity"), &vec![vec![[0.0, 0.0, 0.0]], vec![[3.0, 4.0, 0.0]]]);
    assert_eq!(log.particle.get("velocity"), &vec![vec![0.0], vec![5.0]]);
}

#[test]
fn add_to_particle_vector_len_sums_the_vectors_and_measures_the_sum() {
    let mut log: DataLog<f64> = DataLog::new(2);
    log.add_particle_vector_series("force");
    log.time.push(0.0);
    log.add_to_particle_vector_len("force", 0, [3.0, 0.0, 0.0], plus, norm);
    assert_eq!(log.particle_vector.get("force")[0], vec![[3.0, 0.0, 0.0]]);
    assert_eq!(log.particle.get("force")[0], vec![3.0]);
    log.add_to_particle_vector_len("force", 0, [0.0, 4.0, 0.0], plus, norm);
    assert_eq!(log.particle_vector.get("force")[0], vec![[3.0, 4.0, 0.0]]);
    assert_eq!(log.particle.get("force")[0], vec![5.0]);
    log.add_to_particle_vector_len("force", 0, [-3.0, -4.0, 12.0], plus, norm);
    assert_eq!(log.particle_vector.get("force")[0], vec![[0.0, 0.0, 12.0]]);
    assert_eq!(log.particle.get("force")[0], vec![12.0]);
    log.time.push(1.0);
    log.add_to_particle_vector_len("force", 0, [1.0, 2.0, 2.0], plus, norm);
    assert_eq!(log.particle_vector.get("force")[0], vec![[0.0, 0.0, 12.0], [1.0, 2.0, 2.0]]);
    assert_eq!(log.particle.get("force")[0], vec![12.0, 3.0]);
    assert_eq!(log.particle_vector.get("force")[1], Vec::<[f64; 3]>::new());
}

#[test]
fn opposite_contributions_of_a_pair_cancel_in_the_sum() {
    let mut log: DataLog<f64> = DataLog::new(2);
    log.add_particle_vector_series("force");
    log.time.push(0.0);
    let f = [0.25, -1.5, 2.0];
    log.add_to_particle_vector_len("force", 0, f, plus, norm);
    log.add_to_particle_vector_len("force", 1, [-f[0], -f[1], -f[2]], plus, norm);
    let a = log.particle_vector.get("force")[0][0];
    let b = log.particle_vector.get("force")[1][0];
    assert_eq!([a[0] + b[0], a[1] + b[1], a[2] + b[2]], [0.0, 0.0, 0.0]);
    assert_eq!(log.particle.get("force")[0], log.particle.get("force")[1]);
}

#[test]
fn series_are_paired_with_time_as_far_as_both_reach() {
    let mut log: DataLog<f64> = DataLog::new(1);
    log.global.add_series("temperature");
    log.add_particle_vector_series("position");
    log.time.push(0.0);
    log.time.push(0.5);
    log.global.insert_into("temperature", 300.0);
    log.insert_particle_vector_len("position", 0, [1.0, 2.0, 2.0], norm);
    log.insert_particle_vector_len("position", 0, [2.0, 3.0, 6.0], norm);
    log.insert_particle_vector_len("position", 0, [0.0, 0.0, 0.0], norm);
    assert_eq!(log.global_as_iter("temperature"), vec![(0.0, 300.0)]);
    assert_eq!(log.particle_as_iter("position", 0), vec![(0.0, 3.0), (0.5, 7.0)]);
    assert_eq!(
        log.particle_vector_as_iter("position", 0),
        vec![(0.0, [1.0, 2.0, 2.0]), (0.5, [2.0, 3.0, 6.0])]
    );
}

#[test]
fn header_names_every_column_in_the_order_of_adding() {
    let mut log: DataLog<f64> = DataLog::new(2);
    log.add_particle_vector_series("position");
    log.add_particle_series("energy");
    log.global.add_series("temperature");
    assert_eq!(
        log.header(),
        "t,energy,temperature,position_0,position_1,energy_0,energy_1,\
         position_0_x,position_0_y,position_0_z,position_1_x,position_1_y,position_1_z"
    );
}

#[test]
fn header_numbers_particles_in_decimal() {
    let mut log: DataLog<f64> = DataLog::new(12);
    log.particle.add_series("q");
    assert_eq!(log.header(), "t,q_0,q_1,q_2,q_3,q_4,q_5,q_6,q_7,q_8,q_9,q_10,q_11");
    let mut log: DataLog<f64> = DataLog::new(0);
    log.particle.add_series("q");
    log.global.add_series("g");
    assert_eq!(log.header(), "t,g");
    let mut log: DataLog<f64> = DataLog::new(101);
    log.particle.add_series("q");
    assert!(log.header().ends_with(",q_98,q_99,q_100"));
}

#[test]
fn exported_rows_hold_the_inserted_vectors_in_insertion_order() {
    let mut log: DataLog<f64> = DataLog::new(2);
    log.particle_vector.add_series("position");
    for step in 0..3 {
        let t = step as f64;
        log.time.push(t * 0.5);
        log.particle_vector.insert_into("position", 0, [t, t + 0.25, t + 0.5]);
        log.particle_vector.insert_into("position", 1, [-t, 10.0 * t, 100.0]);
    }
    assert!(log.is_complete());
    let lines = log.to_lines(show);
    assert_eq!(lines.len(), 4);
    assert_eq!(
        lines[0],
        "t,position_0_x,position_0_y,position_0_z,position_1_x,position_1_y,position_1_z"
    );
    assert_eq!(lines[1], "0,0,0.25,0.5,-0,0,100");
    assert_eq!(lines[2], "0.5,1,1.25,1.5,-1,10,100");
    assert_eq!(lines[3], "1,2,2.25,2.5,-2,20,100");
    assert_eq!(log.row(1), vec![0.5, 1.0, 1.25, 1.5, -1.0, 10.0, 100.0]);
}

#[test]
fn row_holds_time_then_globals_then_particles_then_vectors() {
    let mut log: DataLog<i64> = DataLog::new(2);
    log.global.add_series("g");
    log.global.add_series("h");
    log.particle.add_series("p");
    log.particle_vector.add_series("v");
    log.time.push(100);
    log.time.push(200);
    for step in 0..2 {
        log.global.insert_into("g", 1 + step);
        log.global.insert_into("h", 3 + step);
        log.particle.insert_into("p", 0, 10 + step);
        log.particle.insert_into("p", 1, 20 + step);
        log.particle_vector.insert_into("v", 0, [30 + step, 40 + step, 50 + step]);
        log.particle_vector.insert_into("v", 1, [60 + step, 70 + step, 80 + step]);
    }
    assert_eq!(log.row(0), vec![100, 1, 3, 10, 20, 30, 40, 50, 60, 70, 80]);
    assert_eq!(log.row(1), vec![200, 2, 4, 11, 21, 31, 41, 51, 61, 71, 81]);
    let lines = log.to_lines(|v: i64| format!("<{}>", v));
    assert_eq!(lines[0], "t,g,h,p_0,p_1,v_0_x,v_0_y,v_0_z,v_1_x,v_1_y,v_1_z");
    assert_eq!(lines[2], "<200>,<2>,<4>,<11>,<21>,<31>,<41>,<51>,<61>,<71>,<81>");
}

#[test]
fn log_with_a_short_series_is_not_complete() {
    let mut log: DataLog<f64> = DataLog::new(2);
    log.add_particle_series("energy");
    assert!(log.is_complete());
    log.time.push(0.0);
    assert!(!log.is_complete());
    log.insert_particle_add("energy", 0, 1.0, plus);
    assert!(!log.is_complete());
    log.insert_particle_add("energy", 1, 1.0, plus);
    assert!(log.is_complete());
    log.add_particle_vector_series("force");
    assert!(!log.is_complete());
    log.insert_particle_vector_len("force", 0, [0.0, 0.0, 0.0], norm);
    log.insert_particle_vector_len("force", 1, [0.0, 0.0, 0.0], norm);
    assert!(log.is_complete());
    log.particle.add_series("energy");
    assert!(!log.is_complete());
}

#[test]
fn join_row_puts_commas_between_the_cells() {
    assert_eq!(mdsim::export::join_row(&vec![1.5, -2.0, 0.0], &show), "1.5,-2,0");
    assert_eq!(mdsim::export::join_row(&vec![7.0], &show), "7");
    assert_eq!(mdsim::export::join_row(&Vec::<f64>::new(), &show), "");
}
