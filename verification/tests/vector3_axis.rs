use godot_cell::vector3_axis::Vector3Axis;

#[test]
fn axes_are_distinct_and_copyable() {
    let x = Vector3Axis::X;
    let copy = x;
    assert_eq!(x, copy);
    assert_ne!(Vector3Axis::X, Vector3Axis::Y);
    assert_ne!(Vector3Axis::Y, Vector3Axis::Z);
    assert_ne!(Vector3Axis::X, Vector3Axis::Z);
    assert_eq!(format!("{:?}", Vector3Axis::Z), "Z");
}
