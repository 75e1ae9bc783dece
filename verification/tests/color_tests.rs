use dht11::color::DisplayColor;

#[test]
fn colors_cycle_in_the_fixed_order() {
    assert_eq!(DisplayColor::Red.next(), DisplayColor::Green);
    assert_eq!(DisplayColor::Green.next(), DisplayColor::Blue);
    assert_eq!(DisplayColor::Blue.next(), DisplayColor::White);
    assert_eq!(DisplayColor::White.next(), DisplayColor::Black);
    assert_eq!(DisplayColor::Black.next(), DisplayColor::Red);
}

#[test]
fn five_steps_return_to_the_start() {
    let start = DisplayColor::Blue;
    let c = start.next().next().next().next().next();
    assert_eq!(c, start);
}
