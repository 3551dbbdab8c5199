//! Seeding: a random pattern with four-fold mirror symmetry, planned as a
//! list of alterations and then written to the grid in order.

use crate::grid::lemma_flat_index_bound;
use crate::grid::rectangular;
use crate::grid::AutonImage;
use crate::random::gen_range_u64;
use crate::random::gen_range_usize;
use crate::topology::mirrored;
use crate::topology::Address;
use rand::rngs::StdRng;
use vstd::arithmetic::div_mod::lemma_fundamental_div_mod_converse;
use vstd::arithmetic::div_mod::lemma_mod_bound;
use vstd::arithmetic::div_mod::lemma_multiply_divide_lt;
use vstd::prelude::*;

verus! {

/// One planned write: a color and the four addresses that receive it.
#[derive(Clone, Copy, Debug)]
pub struct Alteration {
    pub color: u64,
    pub addresses: [Address; 4],
}

impl Alteration {
    /// The alteration that gives `color` to the four `addresses`.
    pub fn new(color: u64, addresses: [Address; 4]) -> (alteration: Alteration)
        ensures
            alteration == (Alteration { color, addresses }),
    {
        Alteration { color, addresses }
    }

    /// Whether one of the first `count` addresses is `address`.
    pub open spec fn touches_among(&self, count: int, address: Address) -> bool {
        ||| (count > 0 && self.addresses[0] == address)
        ||| (count > 1 && self.addresses[1] == address)
        ||| (count > 2 && self.addresses[2] == address)
        ||| (count > 3 && self.addresses[3] == address)
    }

    /// Whether the alteration writes to `address`.
    pub open spec fn touches(&self, address: Address) -> bool {
        self.touches_among(4, address)
    }

    /// Whether all four addresses lie on a grid of the given size.
    pub open spec fn within(&self, height: usize, width: usize) -> bool {
        forall|i: int| 0 <= i < 4 ==> (#[trigger] self.addresses[i]).within(height, width)
    }

    /// Whether the four addresses are an address of the grid, its mirror
    /// image from left to right, its mirror image from top to bottom, and
    /// its mirror image both ways, in that order.
    pub open spec fn mirrors(&self, height: usize, width: usize) -> bool {
        let primary = self.addresses[0];
        &&& primary.within(height, width)
        &&& self.addresses[1] == primary.reflected(false, true, height, width)
        &&& self.addresses[2] == primary.reflected(true, false, height, width)
        &&& self.addresses[3] == primary.reflected(true, true, height, width)
    }
}

/// The alteration that gives `color` to `address` and to its three mirror
/// images on a grid of the given size.
pub open spec fn mirror_images(address: Address, color: u64, height: usize, width: usize) -> Alteration {
    Alteration {
        color,
        addresses: [
            address,
            address.reflected(false, true, height, width),
            address.reflected(true, false, height, width),
            address.reflected(true, true, height, width),
        ],
    }
}

/// The color that `address` holds once `alterations` have been written in
/// order over a cell that held `before`: that of the last alteration that
/// touches the address, or `before` where none does.
pub open spec fn seeded_color(before: u64, alterations: Seq<Alteration>, address: Address) -> u64
    decreases alterations.len(),
{
    if alterations.len() == 0 {
        before
    } else if alterations.last().touches(address) {
        alterations.last().color
    } else {
        seeded_color(before, alterations.drop_last(), address)
    }
}

/// The colors of a grid once `alterations` have been written to it in
/// order.
pub open spec fn seeded(colors: Seq<Seq<u64>>, alterations: Seq<Alteration>) -> Seq<Seq<u64>> {
    Seq::new(
        colors.len(),
        |row: int|
            Seq::new(
                colors[row].len(),
                |column: int|
                    seeded_color(
                        colors[row][column],
                        alterations,
                        Address { row: row as usize, column: column as usize },
                    ),
            ),
    )
}

/// Whether a grid of the given size mirrors itself from left to right and
/// from top to bottom: each cell has the color of its three mirror images.
pub open spec fn symmetric(colors: Seq<Seq<u64>>, height: int, width: int) -> bool {
    forall|row: int, column: int|
        0 <= row < height && 0 <= column < width ==> {
            let color = #[trigger] colors[row][column];
            &&& colors[row][mirrored(column, width)] == color
            &&& colors[mirrored(row, height)][column] == color
            &&& colors[mirrored(row, height)][mirrored(column, width)] == color
        }
}

/// How many rounds seeding takes on a grid of the given size: half the
/// height, and none where the top left quadrant has no column.
pub open spec fn seeding_rounds(height: usize, width: usize) -> int {
    if width / 2 == 0 {
        0
    } else {
        height as int / 2
    }
}

/// How many addresses the top left quadrant has: rows below half the
/// height, columns below half the width.
pub open spec fn quadrant_size(height: usize, width: usize) -> int {
    (height / 2) * (width / 2)
}

/// The address at `index` in the list of the top left quadrant, which runs
/// row by row.
pub open spec fn quadrant_address(index: int, width: usize) -> Address {
    Address { row: (index / (width as int / 2)) as usize, column: (index % (width as int / 2)) as usize }
}

/// Whether each pick, an index into the quadrant's list and a color, has
/// its index within the list.
pub open spec fn picks_within(picks: Seq<(usize, u64)>, height: usize, width: usize) -> bool {
    forall|i: int| 0 <= i < picks.len() ==> (#[trigger] picks[i]).0 < quadrant_size(height, width)
}

/// Whether `picks` is what seeding may have drawn: one pick per round, each
/// with its index within the quadrant's list and its color below
/// `color_modulus`.
pub open spec fn drawn_picks(
    picks: Seq<(usize, u64)>,
    height: usize,
    width: usize,
    color_modulus: u64,
) -> bool {
    &&& picks.len() == seeding_rounds(height, width)
    &&& picks_within(picks, height, width)
    &&& forall|i: int| 0 <= i < picks.len() ==> (#[trigger] picks[i]).1 < color_modulus
}

/// The alterations that `picks` stand for: each gives the pick's color to
/// the picked address of the quadrant and to its three mirror images.
pub open spec fn planned(picks: Seq<(usize, u64)>, height: usize, width: usize) -> Seq<Alteration> {
    Seq::new(
        picks.len(),
        |i: int|
            mirror_images(quadrant_address(picks[i].0 as int, width), picks[i].1, height, width),
    )
}

/// Every address of the quadrant's list lies in the quadrant.
pub proof fn lemma_quadrant_address(index: int, height: usize, width: usize)
    requires
        0 <= index < quadrant_size(height, width),
    ensures
        quadrant_address(index, width).row < height / 2,
        quadrant_address(index, width).column < width / 2,
        quadrant_address(index, width).within(height, width),
{
    let rows = height as int / 2;
    let columns = width as int / 2;
    assert(columns > 0) by (nonlinear_arith)
        requires
            0 <= index < rows * columns,
            0 <= rows,
            0 <= columns,
    ;
    assert(index < columns * rows) by (nonlinear_arith)
        requires
            index < rows * columns,
    ;
    lemma_multiply_divide_lt(index, columns, rows);
    lemma_mod_bound(index, columns);
    assert(0 <= index / columns) by (nonlinear_arith)
        requires
            0 <= index,
            0 < columns,
    ;
}

/// What picks within the quadrant's list stand for are alterations that
/// mirror, whose first address lies in the quadrant.
pub proof fn lemma_planned_mirror(picks: Seq<(usize, u64)>, height: usize, width: usize)
    requires
        picks_within(picks, height, width),
    ensures
        planned(picks, height, width).len() == picks.len(),
        forall|i: int|
            0 <= i < picks.len() ==> {
                let alteration = #[trigger] planned(picks, height, width)[i];
                &&& alteration.mirrors(height, width)
                &&& alteration.within(height, width)
                &&& alteration.color == picks[i].1
                &&& alteration.addresses[0].row < height / 2
                &&& alteration.addresses[0].column < width / 2
            },
{
    assert forall|i: int| 0 <= i < picks.len() implies {
        let alteration = #[trigger] planned(picks, height, width)[i];
        &&& alteration.mirrors(height, width)
        &&& alteration.within(height, width)
        &&& alteration.color == picks[i].1
        &&& alteration.addresses[0].row < height / 2
        &&& alteration.addresses[0].column < width / 2
    } by {
        lemma_quadrant_address(picks[i].0 as int, height, width);
    }
}

/// An alteration that mirrors touches an address of the grid exactly when
/// it touches the mirror images of that address.
pub proof fn lemma_touches_mirror_images(
    alteration: Alteration,
    address: Address,
    vertically: bool,
    horizontally: bool,
    height: usize,
    width: usize,
)
    requires
        alteration.mirrors(height, width),
        address.within(height, width),
    ensures
        alteration.touches(address) == alteration.touches(
            address.reflected(vertically, horizontally, height, width),
        ),
{
}

/// Where every alteration mirrors, an address of the grid and each of its
/// mirror images end with the same color, provided that they began with the
/// same color or that some alteration touches the address.
pub proof fn lemma_seeded_color_mirrors(
    before: u64,
    before_image: u64,
    alterations: Seq<Alteration>,
    address: Address,
    vertically: bool,
    horizontally: bool,
    height: usize,
    width: usize,
)
    requires
        forall|i: int|
            0 <= i < alterations.len() ==> (#[trigger] alterations[i]).mirrors(height, width),
        address.within(height, width),
        before == before_image || exists|i: int|
            0 <= i < alterations.len() && (#[trigger] alterations[i]).touches(address),
    ensures
        seeded_color(before, alterations, address) == seeded_color(
            before_image,
            alterations,
            address.reflected(vertically, horizontally, height, width),
        ),
    decreases alterations.len(),
{
    if alterations.len() > 0 {
        let last = alterations.last();
        let earlier = alterations.drop_last();
        lemma_touches_mirror_images(last, address, vertically, horizontally, height, width);
        if !last.touches(address) {
            if before != before_image {
                let i = choose|i: int|
                    0 <= i < alterations.len() && (#[trigger] alterations[i]).touches(address);
                assert(earlier[i].touches(address));
            }
            lemma_seeded_color_mirrors(
                before,
                before_image,
                earlier,
                address,
                vertically,
                horizontally,
                height,
                width,
            );
        }
    }
}

/// A cell that began below a bound, and was written only colors below it,
/// ends below it.
pub proof fn lemma_seeded_color_bounds(
    before: u64,
    alterations: Seq<Alteration>,
    address: Address,
    bound: u64,
)
    requires
        before < bound,
        forall|i: int| 0 <= i < alterations.len() ==> (#[trigger] alterations[i]).color < bound,
    ensures
        seeded_color(before, alterations, address) < bound,
    decreases alterations.len(),
{
    if alterations.len() > 0 {
        lemma_seeded_color_bounds(before, alterations.drop_last(), address, bound);
    }
}

/// Seeding symmetry: once alterations that mirror have been written to a
/// grid, every cell that one of them touched has the color of its three
/// mirror images.
pub proof fn lemma_seeding_symmetry(
    colors: Seq<Seq<u64>>,
    alterations: Seq<Alteration>,
    height: usize,
    width: usize,
    row: int,
    column: int,
)
    requires
        rectangular(colors, height as int, width as int),
        forall|i: int|
            0 <= i < alterations.len() ==> (#[trigger] alterations[i]).mirrors(height, width),
        0 <= row < height,
        0 <= column < width,
        exists|i: int|
            0 <= i < alterations.len() && (#[trigger] alterations[i]).touches(
                Address { row: row as usize, column: column as usize },
            ),
    ensures
        ({
            let after = seeded(colors, alterations);
            &&& after[row][mirrored(column, width as int)] == after[row][column]
            &&& after[mirrored(row, height as int)][column] == after[row][column]
            &&& after[mirrored(row, height as int)][mirrored(column, width as int)]
                == after[row][column]
        }),
{
    let address = Address { row: row as usize, column: column as usize };
    let across = mirrored(column, width as int);
    let down = mirrored(row, height as int);
    lemma_seeded_color_mirrors(
        colors[row][column],
        colors[row][across],
        alterations,
        address,
        false,
        true,
        height,
        width,
    );
    lemma_seeded_color_mirrors(
        colors[row][column],
        colors[down][column],
        alterations,
        address,
        true,
        false,
        height,
        width,
    );
    lemma_seeded_color_mirrors(
        colors[row][column],
        colors[down][across],
        alterations,
        address,
        true,
        true,
        height,
        width,
    );
}

/// A grid that mirrored itself before alterations that mirror were written
/// to it mirrors itself afterwards.
pub proof fn lemma_seeding_keeps_symmetry(
    colors: Seq<Seq<u64>>,
    alterations: Seq<Alteration>,
    height: usize,
    width: usize,
)
    requires
        rectangular(colors, height as int, width as int),
        symmetric(colors, height as int, width as int),
        forall|i: int|
            0 <= i < alterations.len() ==> (#[trigger] alterations[i]).mirrors(height, width),
    ensures
        symmetric(seeded(colors, alterations), height as int, width as int),
{
    let after = seeded(colors, alterations);
    assert forall|row: int, column: int| 0 <= row < height && 0 <= column < width implies {
        let color = #[trigger] after[row][column];
        &&& after[row][mirrored(column, width as int)] == color
        &&& after[mirrored(row, height as int)][column] == color
        &&& after[mirrored(row, height as int)][mirrored(column, width as int)] == color
    } by {
        let address = Address { row: row as usize, column: column as usize };
        let across = mirrored(column, width as int);
        let down = mirrored(row, height as int);
        let here = colors[row][column];
        lemma_seeded_color_mirrors(
            here,
            colors[row][across],
            alterations,
            address,
            false,
            true,
            height,
            width,
        );
        lemma_seeded_color_mirrors(
            here,
            colors[down][column],
            alterations,
            address,
            true,
            false,
            height,
            width,
        );
        lemma_seeded_color_mirrors(
            here,
            colors[down][across],
            alterations,
            address,
            true,
            true,
            height,
            width,
        );
    }
}

impl AutonImage {
    /// The addresses of the top left quadrant, row by row: rows below half
    /// the height, columns below half the width.
    pub fn quadrant_addresses(&self) -> (addresses: Vec<Address>)
        requires
            self.wf(),
        ensures
            addresses@.len() == quadrant_size(self.height(), self.width()),
            forall|i: int|
                0 <= i < addresses@.len() ==> #[trigger] addresses@[i] == quadrant_address(
                    i,
                    self.width(),
                ),
    {
        let symmetry_height = self.height() / 2;
        let symmetry_width = self.width() / 2;
        proof {
            self.lemma_wf_cells();
            assert(symmetry_height * symmetry_width <= self.height() * self.width())
                by (nonlinear_arith)
                requires
                    symmetry_height <= self.height(),
                    symmetry_width <= self.width(),
            ;
            assert(0 * symmetry_width == 0) by (nonlinear_arith);
        }
        let mut addresses: Vec<Address> = Vec::with_capacity(symmetry_height * symmetry_width);
        for row in 0..symmetry_height
            invariant
                symmetry_width == self.width() / 2,
                addresses@.len() == row * symmetry_width,
                forall|i: int|
                    0 <= i < addresses@.len() ==> #[trigger] addresses@[i] == quadrant_address(
                        i,
                        self.width(),
                    ),
        {
            for column in 0..symmetry_width
                invariant
                    symmetry_width == self.width() / 2,
                    addresses@.len() == row * symmetry_width + column,
                    forall|i: int|
                        0 <= i < addresses@.len() ==> #[trigger] addresses@[i] == quadrant_address(
                            i,
                            self.width(),
                        ),
            {
                proof {
                    lemma_fundamental_div_mod_converse(
                        row * symmetry_width + column,
                        symmetry_width as int,
                        row as int,
                        column as int,
                    );
                }
                addresses.push(Address::new(row, column));
            }
            proof {
                assert((row + 1) * symmetry_width == row * symmetry_width + symmetry_width)
                    by (nonlinear_arith);
            }
        }
        addresses
    }

    /// The alteration that gives `color` to `address` and to its three
    /// mirror images.
    pub fn symmetric_alteration(&self, address: Address, color: u64) -> (alteration: Alteration)
        requires
            address.within(self.height(), self.width()),
        ensures
            alteration == mirror_images(address, color, self.height(), self.width()),
    {
        let sym_1 = self.symmetry_address(address, false, true);
        let sym_2 = self.symmetry_address(address, true, false);
        let sym_3 = self.symmetry_address(address, true, true);
        let alt_addresses = [address, sym_1, sym_2, sym_3];
        proof {
            assert(alt_addresses =~= mirror_images(
                address,
                color,
                self.height(),
                self.width(),
            ).addresses);
        }
        Alteration::new(color, alt_addresses)
    }

    /// Turns picks, each an index into the quadrant's list and a color,
    /// into the alterations they stand for.
    pub fn plan_alterations(&self, picks: &Vec<(usize, u64)>) -> (alterations: Vec<Alteration>)
        requires
            self.wf(),
            picks_within(picks@, self.height(), self.width()),
        ensures
            alterations@ == planned(picks@, self.height(), self.width()),
    {
        let addresses = self.quadrant_addresses();
        let mut alterations: Vec<Alteration> = Vec::with_capacity(picks.len());
        for round in 0..picks.len()
            invariant
                picks_within(picks@, self.height(), self.width()),
                addresses@.len() == quadrant_size(self.height(), self.width()),
                forall|i: int|
                    0 <= i < addresses@.len() ==> #[trigger] addresses@[i] == quadrant_address(
                        i,
                        self.width(),
                    ),
                alterations@.len() == round,
                forall|i: int|
                    0 <= i < round ==> #[trigger] alterations@[i] == planned(
                        picks@,
                        self.height(),
                        self.width(),
                    )[i],
        {
            let pick = picks[round];
            proof {
                lemma_quadrant_address(pick.0 as int, self.height(), self.width());
            }
            let address = addresses[pick.0];
            alterations.push(self.symmetric_alteration(address, pick.1));
        }
        alterations
    }

    /// Writes the alterations to the grid in order, each to its four
    /// addresses. Where two alterations touch a cell, the later one stays.
    pub fn apply_alterations(&mut self, alterations: &Vec<Alteration>)
        requires
            old(self).wf(),
            forall|i: int|
                0 <= i < alterations@.len() ==> (#[trigger] alterations@[i]).within(
                    old(self).height(),
                    old(self).width(),
                ),
        ensures
            final(self).wf(),
            final(self).height() == old(self).height(),
            final(self).width() == old(self).width(),
            final(self)@ == seeded(old(self)@, alterations@),
    {
        let ghost initial = self@;
        let ghost height = self.height();
        let ghost width = self.width();
        proof {
            self.lemma_view_shape();
        }
        for round in 0..alterations.len()
            invariant
                self.wf(),
                self.height() == height,
                self.width() == width,
                rectangular(initial, height as int, width as int),
                forall|i: int|
                    0 <= i < alterations@.len() ==> (#[trigger] alterations@[i]).within(
                        height,
                        width,
                    ),
                forall|row: int, column: int|
                    0 <= row < height && 0 <= column < width ==> #[trigger] self@[row][column]
                        == seeded_color(
                        initial[row][column],
                        alterations@.take(round as int),
                        Address { row: row as usize, column: column as usize },
                    ),
        {
            let ghost planned = alterations@.take(round as int);
            let ghost entered = self@;
            let alteration = &alterations[round];
            for place in 0..4usize
                invariant
                    self.wf(),
                    self.height() == height,
                    self.width() == width,
                    alteration.within(height, width),
                    forall|row: int, column: int|
                        0 <= row < height && 0 <= column < width ==> #[trigger] self@[row][column]
                            == if alteration.touches_among(
                            place as int,
                            Address { row: row as usize, column: column as usize },
                        ) {
                            alteration.color
                        } else {
                            entered[row][column]
                        },
            {
                let address = alteration.addresses[place];
                proof {
                    self.lemma_view_shape();
                }
                self.find_mut_cell(address).set_color(alteration.color);
            }
            proof {
                let extended = alterations@.take(round as int + 1);
                assert(extended.drop_last() =~= planned);
            }
        }
        proof {
            self.lemma_view_shape();
            assert(alterations@.take(alterations@.len() as int) =~= alterations@);
            assert(self@ =~~= seeded(initial, alterations@));
        }
    }

    /// Seeds the grid with a pattern that mirrors itself from left to right
    /// and from top to bottom. Each round draws a pick: first an index into
    /// the list of the top left quadrant, then a color below
    /// `color_modulus`. When all rounds are drawn, each pick's color is
    /// written to the picked address and to its three mirror images, pick by
    /// pick.
    pub fn make_unique(&mut self, rng: &mut StdRng, color_modulus: u64)
        requires
            old(self).wf(),
            seeding_rounds(old(self).height(), old(self).width()) > 0 ==> color_modulus > 0,
        ensures
            final(self).wf(),
            final(self).height() == old(self).height(),
            final(self).width() == old(self).width(),
            exists|picks: Seq<(usize, u64)>|
                #[trigger] drawn_picks(picks, old(self).height(), old(self).width(), color_modulus)
                    && final(self)@ == seeded(
                    old(self)@,
                    planned(picks, old(self).height(), old(self).width()),
                ),
    {
        let symmetry_height = self.height() / 2;
        let symmetry_width = self.width() / 2;
        proof {
            self.lemma_wf_cells();
            assert(symmetry_height * symmetry_width <= self.height() * self.width())
                by (nonlinear_arith)
                requires
                    symmetry_height <= self.height(),
                    symmetry_width <= self.width(),
            ;
        }
        let addresses_count = symmetry_height * symmetry_width;
        let alterations_count = if symmetry_width == 0 {
            0
        } else {
            symmetry_height
        };
        let mut picks: Vec<(usize, u64)> = Vec::with_capacity(alterations_count);
        for round in 0..alterations_count
            invariant
                alterations_count > 0 ==> color_modulus > 0,
                alterations_count <= symmetry_height,
                addresses_count == symmetry_height * symmetry_width,
                addresses_count == quadrant_size(self.height(), self.width()),
                alterations_count > 0 ==> symmetry_width > 0,
                picks@.len() == round,
                picks_within(picks@, self.height(), self.width()),
                forall|i: int| 0 <= i < picks@.len() ==> (#[trigger] picks@[i]).1 < color_modulus,
        {
            proof {
                lemma_flat_index_bound(0, 0, symmetry_height as int, symmetry_width as int);
            }
            let address_index = gen_range_usize(rng, 0, addresses_count);
            let color = gen_range_u64(rng, 0, color_modulus);
            picks.push((address_index, color));
        }
        let alterations = self.plan_alterations(&picks);
        proof {
            lemma_planned_mirror(picks@, self.height(), self.width());
        }
        self.apply_alterations(&alterations);
        proof {
            assert(drawn_picks(picks@, old(self).height(), old(self).width(), color_modulus));
        }
    }
}

} // verus!
