//! Stand-ins for the game's built-in functions and types, so that a farm program written
//! in Rust type-checks in an ordinary Rust editor. None of them does anything: the
//! converter turns calls of them into calls of the game's own functions.
#![allow(non_camel_case_types)]
use std::marker::PhantomData;
use vstd::prelude::*;

verus! {

/// The four compass directions.
#[derive(Debug, Clone, Copy, PartialEq, Eq, Structural)]
pub enum Direction {
    North,
    East,
    South,
    West,
}

/// What can grow on a tile.
#[derive(Debug, Clone, Copy, PartialEq, Eq, Structural)]
pub enum Entity {
    Empty,
    Grass,
    Bush,
    Tree,
    Carrot,
    Pumpkin,
    Sunflower,
    Cactus,
    Dinosaur,
}

/// The ground of a tile.
#[derive(Debug, Clone, Copy, PartialEq, Eq, Structural)]
pub enum Ground {
    Grassland,
    Soil,
}

/// The items of the inventory.
#[derive(Debug, Clone, Copy, PartialEq, Eq, Structural)]
pub enum Item {
    Hay,
    Wood,
    Carrot,
    Carrot_Seed,
    Pumpkin,
    Pumpkin_Seed,
    Power,
    Cactus,
    Cactus_Seed,
    Fertilizer,
    Water,
}

/// What can be unlocked.
#[derive(Debug, Clone, Copy, PartialEq, Eq, Structural)]
pub enum Unlock {
    Speed,
    Expand,
    Plant,
    Carrots,
    Trees,
    Pumpkins,
    Sunflowers,
    Cactus,
    Dinosaurs,
    Multi_Trade,
}

/// The leaderboards a run can be made for.
#[derive(Debug, Clone, Copy, PartialEq, Eq, Structural)]
pub enum Leaderboard {
    Fastest_Reset,
    Maze,
    Dinosaur,
}

/// The game's list type.
#[derive(Debug)]
pub struct FarmList<T = ()> {
    _marker: PhantomData<T>,
}

impl<T> FarmList<T> {
    /// `list.append(value)`; the stand-in keeps nothing.
    pub fn append(&mut self, _value: T)
        ensures
            *final(self) == *old(self),
    {
    }
}

/// The game's set type.
#[derive(Debug)]
pub struct FarmSet<T = ()> {
    _marker: PhantomData<T>,
}

/// The game's dictionary type.
#[derive(Debug)]
pub struct FarmDict<K = (), V = ()> {
    _marker: PhantomData<(K, V)>,
}

impl<T> Clone for FarmList<T> {
    fn clone(&self) -> (r: Self) {
        FarmList { _marker: PhantomData }
    }
}

impl<T> Clone for FarmSet<T> {
    fn clone(&self) -> (r: Self) {
        FarmSet { _marker: PhantomData }
    }
}

impl<K, V> Clone for FarmDict<K, V> {
    fn clone(&self) -> (r: Self) {
        FarmDict { _marker: PhantomData }
    }
}

pub fn harvest() {
}

/// Always `false` outside the game.
pub fn can_harvest() -> (r: bool)
    ensures
        !r,
{
    false
}

pub fn swap(_direction: Direction) {
}

pub fn plant(_entity: Entity) {
}

pub fn move_dir(_direction: Direction) {
}

pub fn till() {
}

pub fn trade(_item: Item) {
}

pub fn trade_n(_item: Item, _count: i32) {
}

/// Always 0 outside the game.
pub fn get_pos_x() -> (r: i32)
    ensures
        r == 0,
{
    0
}

/// Always 0 outside the game.
pub fn get_pos_y() -> (r: i32)
    ensures
        r == 0,
{
    0
}

/// Always 0 outside the game.
pub fn get_world_size() -> (r: i32)
    ensures
        r == 0,
{
    0
}

/// Always `Entity::Empty` outside the game.
pub fn get_entity_type() -> (r: Entity)
    ensures
        r == Entity::Empty,
{
    Entity::Empty
}

/// Always `Ground::Grassland` outside the game.
pub fn get_ground_type() -> (r: Ground)
    ensures
        r == Ground::Grassland,
{
    Ground::Grassland
}

/// Always 0 outside the game.
pub fn get_tick_count() -> (r: i32)
    ensures
        r == 0,
{
    0
}

/// Always 0 outside the game.
pub fn get_op_count() -> (r: i32)
    ensures
        r == 0,
{
    0
}

pub fn use_item(_item: Item) {
}

pub fn use_item_n(_item: Item, _count: i32) {
}

pub fn do_a_flip() {
}

pub fn print<T>(_value: T) {
}

pub fn quick_print<T>(_value: T) {
}

/// Always 0 outside the game.
pub fn len<T>(_collection: T) -> (r: usize)
    ensures
        r == 0,
{
    0
}

/// Always 0 outside the game.
pub fn num_items(_item: Item) -> (r: i32)
    ensures
        r == 0,
{
    0
}

/// Always 0 outside the game.
pub fn get_cost<T>(_thing: T) -> (r: i32)
    ensures
        r == 0,
{
    0
}

pub fn clear() {
}

/// Always `(Entity::Empty, (0, 0))` outside the game.
pub fn get_companion() -> (r: (Entity, (i32, i32)))
    ensures
        r == (Entity::Empty, (0i32, 0i32)),
{
    (Entity::Empty, (0, 0))
}

pub fn unlock(_unlock: Unlock) {
}

/// Always 0 outside the game.
pub fn num_unlocked<T>(_thing: T) -> (r: i32)
    ensures
        r == 0,
{
    0
}

pub fn timed_reset() {
}

/// Always 0 outside the game.
pub fn measure() -> (r: i32)
    ensures
        r == 0,
{
    0
}

/// Always 0 outside the game.
pub fn measure_dir(_direction: Direction) -> (r: i32)
    ensures
        r == 0,
{
    0
}

/// The smaller of two numbers.
pub fn min(a: i32, b: i32) -> (r: i32)
    ensures
        r == if a <= b { a } else { b },
{
    if a <= b {
        a
    } else {
        b
    }
}

/// The larger of two numbers.
pub fn max(a: i32, b: i32) -> (r: i32)
    ensures
        r == if b >= a { b } else { a },
{
    if b >= a {
        b
    } else {
        a
    }
}

/// The absolute value; `i32::MIN` has none that fits.
pub fn abs(number: i32) -> (r: i32)
    requires
        number > i32::MIN,
    ensures
        r == if number < 0 { -number } else { number as int },
{
    if number < 0 {
        -number
    } else {
        number
    }
}

/// An empty list.
pub fn list<T>() -> (r: FarmList<T>) {
    FarmList { _marker: PhantomData }
}

/// An empty set.
pub fn set<T>() -> (r: FarmSet<T>) {
    FarmSet { _marker: PhantomData }
}

/// An empty dictionary.
pub fn dict<K, V>() -> (r: FarmDict<K, V>) {
    FarmDict { _marker: PhantomData }
}

pub fn set_execution_speed(_speed: i32) {
}

pub fn set_farm_size(_size: i32) {
}

pub fn leaderboard_run(_leaderboard: Leaderboard, _filename: &str, _speedup: i32) {
}

pub fn simulate<TUnlocks, TItems, TGlobals>(
    _filename: &str,
    _unlocks: TUnlocks,
    _items: TItems,
    _globals: TGlobals,
    _seed: i32,
    _speedup: i32,
) {
}

} // verus!
