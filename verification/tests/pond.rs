use ducky_boids::boid::{
    system_boid_alignment_and_cohesion, system_boid_separation, Boid, FlockingConfig,
};
use ducky_boids::breeding::{
    dissolve, mark_partners, release_partners, system_breeding, system_build_relationships,
    system_update_relationships, BreedingProgress, Nest, PairState, RelationshipConfig,
    RelationshipUpdate, Sambo, SpriteChange, BREEDING_DURATION,
};
use ducky_boids::duck_boid::{
    system_boid_mating_attraction, system_boid_update_close_adults, system_boids_ducklings_towards_adults,
    system_boids_food, AdultBoid, CloseAdults, FollowConfig, FoodConfig, MatingConfig,
    CLOSE_ADULTS_RADIUS_2,
};
use ducky_boids::life_cycles::{
    system_decrease_lifecycle_time, system_duckling_to_juvenile, system_hatch_eggs,
    system_juvenile_to_adult, Duck, LifeCycleConfig, LifeCycleTime, Stage,
};
use ducky_boids::movement::{
    system_avoid_edges, system_clamp_velocity, system_movement, Body, EdgeConfig, Mover, Velocity,
    VelocityLimits, Window,
};
use ducky_boids::player::PlayerStats;
use ducky_boids::spawning::{spawn_boid, spawn_threat, CurrentThreats};
use ducky_boids::target::Target;
use ducky_boids::threat_boid::{system_boid_towards_closest_duck, Predator, ThreatConfig};
use ducky_boids::vec2::Vec2;

struct Agent {
    entity: u64,
    position: Vec2,
    velocity: Velocity,
    limits: VelocityLimits,
    stage: Stage,
    time: LifeCycleTime,
    close: Vec<(Vec2, u64)>,
    sambo: Option<Sambo>,
}

struct Pair {
    state: PairState,
    sign: Option<Vec2>,
    progress: BreedingProgress,
}

struct Pond {
    next_entity: u64,
    seed: u64,
    ducks: Vec<Agent>,
    threats: Vec<Predator>,
    threat_limits: Vec<VelocityLimits>,
    foods: Vec<Target>,
    pairs: Vec<Pair>,
    stats: PlayerStats,
    eaten: usize,
    hatched: usize,
    laid: usize,
    paired: usize,
    parted: usize,
}

impl Pond {
    fn sample(&mut self) -> u32 {
        self.seed = self.seed.wrapping_mul(6364136223846793005).wrapping_add(1442695040888963407);
        (self.seed >> 32) as u32
    }

    fn entity(&mut self) -> u64 {
        self.next_entity += 1;
        self.next_entity
    }

    fn lay_egg(&mut self, position: Vec2, config: &LifeCycleConfig) {
        let sample = self.sample();
        let egg = spawn_boid(position, sample, config);
        let entity = self.entity();
        self.ducks.push(Agent {
            entity,
            position: egg.position,
            velocity: Velocity(Vec2 { x: 0, y: 0 }),
            limits: VelocityLimits::default(),
            stage: Stage::Egg,
            time: egg.time,
            close: Vec::new(),
            sambo: None,
        });
    }
}

fn speed2(v: Vec2) -> i128 {
    (v.x as i128) * (v.x as i128) + (v.y as i128) * (v.y as i128)
}

fn steer_flock(pond: &mut Pond, dt: u32) {
    let flocking = FlockingConfig::default();
    let movers: Vec<usize> =
        (0..pond.ducks.len()).filter(|i| pond.ducks[*i].stage != Stage::Egg).collect();
    let mut boids: Vec<Boid> = movers
        .iter()
        .map(|i| Boid {
            entity: pond.ducks[*i].entity,
            position: pond.ducks[*i].position,
            velocity: pond.ducks[*i].velocity,
        })
        .collect();
    system_boid_separation(&mut boids, &flocking);
    system_boid_alignment_and_cohesion(&mut boids, &flocking);
    let eaten = system_boids_food(dt, &pond.foods, &mut boids, &FoodConfig::default());
    for (i, boid) in movers.iter().zip(boids.iter()) {
        pond.ducks[*i].velocity = boid.velocity;
    }
    for food in eaten.into_iter().flatten() {
        pond.foods.retain(|f| f.entity != food);
    }

    let adults: Vec<Target> = pond
        .ducks
        .iter()
        .filter(|d| d.stage == Stage::Adult)
        .map(|d| Target { entity: d.entity, position: d.position })
        .collect();
    let young: Vec<usize> =
        (0..pond.ducks.len()).filter(|i| pond.ducks[*i].stage == Stage::Duckling).collect();
    let mut ducklings: Vec<Boid> = young
        .iter()
        .map(|i| Boid {
            entity: pond.ducks[*i].entity,
            position: pond.ducks[*i].position,
            velocity: pond.ducks[*i].velocity,
        })
        .collect();
    system_boids_ducklings_towards_adults(dt, &adults, &mut ducklings, &FollowConfig::default());
    for (i, duckling) in young.iter().zip(ducklings.iter()) {
        pond.ducks[*i].velocity = duckling.velocity;
    }
}

fn adult_places(pond: &Pond) -> Vec<usize> {
    (0..pond.ducks.len()).filter(|i| pond.ducks[*i].stage == Stage::Adult).collect()
}

fn adult_boids(pond: &Pond, places: &Vec<usize>) -> Vec<AdultBoid> {
    places
        .iter()
        .map(|i| AdultBoid {
            entity: pond.ducks[*i].entity,
            position: pond.ducks[*i].position,
            velocity: pond.ducks[*i].velocity,
            close_adults: CloseAdults(pond.ducks[*i].close.clone()),
            sambo: pond.ducks[*i].sambo,
        })
        .collect()
}

fn keep_adults(pond: &mut Pond, places: &Vec<usize>, adults: Vec<AdultBoid>) {
    for (i, adult) in places.iter().zip(adults.into_iter()) {
        pond.ducks[*i].velocity = adult.velocity;
        pond.ducks[*i].close = adult.close_adults.0;
        pond.ducks[*i].sambo = adult.sambo;
    }
}

fn tick(pond: &mut Pond, dt: u32, window: Window) {
    let life = LifeCycleConfig::default();

    // who is close to whom
    let places = adult_places(pond);
    let mut adults = adult_boids(pond, &places);
    system_boid_update_close_adults(&mut adults, CLOSE_ADULTS_RADIUS_2);
    for (k, adult) in adults.iter().enumerate() {
        for entry in adult.close_adults.0.iter() {
            assert_ne!(entry.1, adult.entity);
            let other = adults.iter().find(|a| a.entity == entry.1).unwrap();
            assert!(other.close_adults.0.iter().any(|e| e.1 == adults[k].entity));
        }
    }
    keep_adults(pond, &places, adults);

    // steering
    steer_flock(pond, dt);
    let places = adult_places(pond);
    let mut adults = adult_boids(pond, &places);
    system_boid_mating_attraction(dt, &mut adults, &MatingConfig::default());
    keep_adults(pond, &places, adults);

    // speed limits
    let movers: Vec<usize> =
        (0..pond.ducks.len()).filter(|i| pond.ducks[*i].stage != Stage::Egg).collect();
    let mut limited: Vec<Mover> = movers
        .iter()
        .map(|i| Mover { velocity: pond.ducks[*i].velocity, limits: pond.ducks[*i].limits })
        .collect();
    for (threat, limits) in pond.threats.iter().zip(pond.threat_limits.iter()) {
        limited.push(Mover { velocity: threat.velocity, limits: *limits });
    }
    system_clamp_velocity(&mut limited);
    for mover in limited.iter() {
        let s = speed2(mover.velocity.0);
        let min = mover.limits.min as i128;
        let max = mover.limits.max as i128;
        assert!(s == 0 || (min * min <= s && s <= max * max));
    }
    for (i, mover) in movers.iter().zip(limited.iter()) {
        pond.ducks[*i].velocity = mover.velocity;
    }
    let first_threat = movers.len();
    for (k, threat) in pond.threats.iter_mut().enumerate() {
        threat.velocity = limited[first_threat + k].velocity;
    }

    // borders and the step
    let mut bodies: Vec<Body> = pond
        .ducks
        .iter()
        .filter(|d| d.stage != Stage::Egg)
        .map(|d| Body { position: d.position, velocity: d.velocity })
        .collect();
    for threat in pond.threats.iter() {
        bodies.push(Body { position: threat.position, velocity: threat.velocity });
    }
    system_avoid_edges(dt, &mut bodies, Some(window), &EdgeConfig::default());
    system_movement(dt, &mut bodies);
    for (i, body) in movers.iter().zip(bodies.iter()) {
        pond.ducks[*i].position = body.position;
        pond.ducks[*i].velocity = body.velocity;
    }
    for (k, threat) in pond.threats.iter_mut().enumerate() {
        threat.position = bodies[first_threat + k].position;
        threat.velocity = bodies[first_threat + k].velocity;
    }

    // ageing
    let mut ducks: Vec<Duck> = pond
        .ducks
        .iter()
        .map(|d| Duck { entity: d.entity, stage: d.stage, time: d.time })
        .collect();
    system_decrease_lifecycle_time(dt, &mut ducks);
    let before: Vec<Stage> = ducks.iter().map(|d| d.stage).collect();
    let hatchlings = system_hatch_eggs(&mut ducks, &mut pond.stats, &life);
    system_duckling_to_juvenile(&mut ducks, &life);
    let grown_up = system_juvenile_to_adult(&mut ducks, &life);
    for (k, new_adult) in grown_up.into_iter().enumerate() {
        if let Some(new_adult) = new_adult {
            // a new adult starts with nobody close to it
            assert!(new_adult.close_adults.0.is_empty());
            pond.ducks[k].close = new_adult.close_adults.0;
        }
    }
    for (k, duck) in ducks.iter().enumerate() {
        // at most one stage in a tick
        let steps = match (before[k], duck.stage) {
            (Stage::Egg, Stage::Egg)
            | (Stage::Duckling, Stage::Duckling)
            | (Stage::Juvenile, Stage::Juvenile)
            | (Stage::Adult, Stage::Adult) => 0,
            (Stage::Egg, Stage::Duckling)
            | (Stage::Duckling, Stage::Juvenile)
            | (Stage::Juvenile, Stage::Adult) => 1,
            _ => 2,
        };
        assert!(steps <= 1);
        if steps == 1 {
            assert!(duck.time.0 > 0);
        }
        pond.ducks[k].stage = duck.stage;
        pond.ducks[k].time = duck.time;
        if let Some(hatchling) = hatchlings[k] {
            pond.ducks[k].velocity = hatchling.velocity;
            pond.ducks[k].limits = hatchling.limits;
            pond.hatched += 1;
        }
    }

    // pairs
    let places = adult_places(pond);
    let mut adults = adult_boids(pond, &places);
    let new_pairs = system_build_relationships(&adults);
    let mut handles = Vec::new();
    for pair in new_pairs.iter() {
        let handle = pond.entity();
        handles.push(handle);
        pond.pairs.push(Pair {
            state: PairState { entity: handle, relationship: *pair, has_sprite: false },
            sign: None,
            progress: BreedingProgress::default(),
        });
        pond.paired += 1;
    }
    mark_partners(&mut adults, &new_pairs, &handles);
    let partners: Vec<Target> = adults
        .iter()
        .filter(|a| a.sambo.is_some())
        .map(|a| Target { entity: a.entity, position: a.position })
        .collect();
    let mut states: Vec<PairState> = pond.pairs.iter().map(|p| p.state).collect();
    let updates =
        system_update_relationships(dt, &mut states, &partners, &RelationshipConfig::default());
    release_partners(&mut adults, &states, &updates);
    let mut kept = Vec::new();
    for ((pair, state), update) in pond.pairs.drain(..).zip(states.iter()).zip(updates.iter()) {
        match *update {
            RelationshipUpdate::Disband { .. } => pond.parted += 1,
            RelationshipUpdate::Keep { position, sprite } => {
                let mut pair = Pair { state: *state, sign: pair.sign, progress: pair.progress };
                if sprite != SpriteChange::Nothing {
                    pair.sign = Some(position);
                    pair.state.has_sprite = true;
                }
                kept.push(pair);
            }
        }
    }
    dissolve(&mut states, &updates);
    assert_eq!(states.len(), kept.len());
    pond.pairs = kept;
    keep_adults(pond, &places, adults);
    // every mark names a pair that is still there, and nobody is in two pairs
    let mut partners_seen: Vec<u64> = Vec::new();
    for pair in pond.pairs.iter() {
        for partner in [pair.state.relationship.partner1, pair.state.relationship.partner2] {
            assert!(!partners_seen.contains(&partner));
            partners_seen.push(partner);
        }
    }
    for duck in pond.ducks.iter() {
        if let Some(sambo) = duck.sambo {
            assert!(pond.pairs.iter().any(|p| p.state.entity == sambo.relationship_entity));
        }
    }

    // breeding
    let nesting: Vec<usize> = (0..pond.pairs.len()).filter(|k| pond.pairs[*k].sign.is_some()).collect();
    let mut nests: Vec<Nest> = nesting
        .iter()
        .map(|k| Nest { position: pond.pairs[*k].sign.unwrap(), progress: pond.pairs[*k].progress })
        .collect();
    let eggs = system_breeding(dt, &mut nests, BREEDING_DURATION);
    for (k, nest) in nesting.iter().zip(nests.iter()) {
        pond.pairs[*k].progress = nest.progress;
    }
    for place in eggs.into_iter().flatten() {
        pond.lay_egg(place, &life);
        pond.laid += 1;
    }

    // the hunt
    let prey: Vec<Target> = pond
        .ducks
        .iter()
        .filter(|d| d.stage != Stage::Egg)
        .map(|d| Target { entity: d.entity, position: d.position })
        .collect();
    let eaten =
        system_boid_towards_closest_duck(dt, &prey, &mut pond.threats, Some(window), &ThreatConfig::default());
    for duck in eaten.into_iter().flatten() {
        let before = pond.ducks.len();
        pond.ducks.retain(|d| d.entity != duck);
        pond.eaten += before - pond.ducks.len();
    }
}

fn new_pond(seed: u64, eggs: usize, threats: usize) -> Pond {
    let mut pond = Pond {
        next_entity: 0,
        seed,
        ducks: Vec::new(),
        threats: Vec::new(),
        threat_limits: Vec::new(),
        foods: Vec::new(),
        pairs: Vec::new(),
        stats: PlayerStats::default(),
        eaten: 0,
        hatched: 0,
        laid: 0,
        paired: 0,
        parted: 0,
    };
    let life = LifeCycleConfig::default();
    for _ in 0..eggs {
        let x = (pond.sample() % 400_000) as i32 - 200_000;
        let y = (pond.sample() % 300_000) as i32 - 150_000;
        pond.lay_egg(Vec2 { x, y }, &life);
    }
    let mut current = CurrentThreats::default();
    for k in 0..threats {
        let x = (pond.sample() % 800_000) as i32 - 400_000;
        let y = (pond.sample() % 600_000) as i32 - 300_000;
        let (a, b, c) = (pond.sample(), pond.sample(), pond.sample());
        let threat = spawn_threat(Vec2 { x, y }, &mut current, k == 0, a, b, c);
        pond.threats.push(Predator {
            position: threat.position,
            velocity: threat.velocity,
            threat: threat.threat,
        });
        pond.threat_limits.push(threat.limits);
    }
    for k in 0..20 {
        let x = (pond.sample() % 800_000) as i32 - 400_000;
        let y = (pond.sample() % 600_000) as i32 - 300_000;
        pond.foods.push(Target { entity: 1_000_000 + k, position: Vec2 { x, y } });
    }
    pond
}

#[test]
fn a_pond_without_predators_grows_pairs_and_eggs() {
    let window = Window { width: 800_000, height: 600_000 };
    let mut pond = new_pond(7, 24, 0);
    // an egg is an adult after 53 seconds at most; a pair shows after half a second and breeds for four
    for _ in 0..4_500 {
        tick(&mut pond, 16, window);
    }
    assert_eq!(pond.eaten, 0);
    assert!(pond.hatched >= 24);
    assert_eq!(pond.stats.score as usize, pond.hatched);
    assert!(pond.paired >= 1);
    assert!(pond.laid >= 1);
    assert_eq!(pond.ducks.len(), 24 + pond.laid);
    assert!(pond.ducks.iter().filter(|d| d.stage == Stage::Adult).count() >= 24);
    for duck in pond.ducks.iter() {
        assert!(duck.position.x.abs() <= 2_000_000 && duck.position.y.abs() <= 2_000_000);
    }
}

#[test]
fn a_pond_with_predators_loses_ducks_and_keeps_its_order() {
    let window = Window { width: 800_000, height: 600_000 };
    let mut pond = new_pond(99, 30, 3);
    for _ in 0..3_000 {
        tick(&mut pond, 16, window);
    }
    assert!(pond.hatched >= 1);
    assert!(pond.eaten >= 1);
    assert!(pond.ducks.len() + pond.eaten == 30 + pond.laid);
    for threat in pond.threats.iter() {
        assert!(speed2(threat.velocity.0) <= 200_000i128 * 200_000 + 2 * 200_000 * 2_080 + 2_080 * 2_080 * 2);
    }
}

#[test]
fn a_long_frame_is_no_trouble() {
    let window = Window { width: 800_000, height: 600_000 };
    let mut pond = new_pond(3, 12, 2);
    for dt in [0, 1, 5_000, 60_000, u32::MAX, 16, 16, 16] {
        tick(&mut pond, dt, window);
    }
    assert!(pond.hatched >= 1);
}
